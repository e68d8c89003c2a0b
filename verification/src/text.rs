//! Character-level helpers on string slices.

use vstd::prelude::*;

verus! {

/// The characters of `text`, in order.
pub fn chars_of(text: &str) -> (chars: Vec<char>)
    ensures
        chars@ == text@,
{
    let mut chars: Vec<char> = Vec::new();
    for c in it: text.chars()
        invariant
            it.seq() == text@,
            chars@ == text@.take(it.index() as int),
    {
        chars.push(c);
    }
    chars
}

/// Tells whether `text` ends with `suffix`, character by character.
pub fn ends_with(text: &str, suffix: &str) -> (found: bool)
    ensures
        found == suffix@.is_suffix_of(text@),
{
    let whole = chars_of(text);
    let tail = chars_of(suffix);
    if tail.len() > whole.len() {
        return false;
    }
    let start = whole.len() - tail.len();
    let mut i: usize = 0;
    while i < tail.len()
        invariant
            i <= tail.len(),
            whole@ == text@,
            tail@ == suffix@,
            start + tail.len() == whole.len(),
            forall|j: int| 0 <= j < i ==> whole@[start + j] == tail@[j],
        decreases tail.len() - i,
    {
        if whole[start + i] != tail[i] {
            assert(whole@.subrange(start as int, whole.len() as int)[i as int] != tail@[i as int]);
            return false;
        }
        i += 1;
    }
    assert(tail@ =~= whole@.subrange(start as int, whole.len() as int));
    true
}

} // verus!
