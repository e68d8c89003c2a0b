//! The tree collector: from a snapshot of a directory to the tree of the
//! files that carry a given extension, each with its encoding.

use vstd::prelude::*;

use crate::coder::{detect_encoding, encoding_of, is_supported, is_supported_len, EncodingType};
use crate::text::ends_with;

verus! {

/// One entry of a directory snapshot, as read from the file system.
///
/// `content` is consulted for files whose label carries the extension that is
/// collected, `children` for directories; their order is that in which the
/// file system listed them.
#[derive(Debug)]
pub struct FsEntry {
    pub label: String,
    pub path: String,
    pub is_file: bool,
    pub content: Vec<u8>,
    pub children: Vec<FsEntry>,
}

/// One node of a collected tree.
#[derive(Debug)]
pub struct TreeNode {
    pub label: String,
    pub path: String,
    pub is_file: bool,
    pub children: Vec<TreeNode>,
    pub encoding: EncodingType,
}

/// A collected tree as a mathematical value.
pub struct TreeView {
    pub label: Seq<char>,
    pub path: Seq<char>,
    pub is_file: bool,
    pub children: Seq<TreeView>,
    pub encoding: EncodingType,
}

/// The value of a node.
pub open spec fn tree_view(node: TreeNode) -> TreeView
    decreases node,
{
    TreeView {
        label: node.label@,
        path: node.path@,
        is_file: node.is_file,
        children: tree_views(node.children@),
        encoding: node.encoding,
    }
}

/// The values of a sequence of nodes.
pub open spec fn tree_views(nodes: Seq<TreeNode>) -> Seq<TreeView>
    decreases nodes,
{
    if nodes.len() == 0 {
        Seq::empty()
    } else {
        tree_views(nodes.drop_last()).push(tree_view(nodes.last()))
    }
}

impl View for TreeNode {
    type V = TreeView;

    open spec fn view(&self) -> TreeView {
        tree_view(*self)
    }
}

impl Default for TreeNode {
    fn default() -> (node: TreeNode)
        ensures
            node@ == (TreeView {
                label: Seq::empty(),
                path: Seq::empty(),
                is_file: false,
                children: Seq::empty(),
                encoding: EncodingType::Other,
            }),
    {
        TreeNode {
            label: String::new(),
            path: String::new(),
            is_file: false,
            children: Vec::new(),
            encoding: EncodingType::Other,
        }
    }
}

/// Whether the content of every file in `entry` and below it is within the
/// size that the library handles.
pub open spec fn is_loadable(entry: FsEntry) -> bool
    decreases entry,
{
    if entry.is_file {
        is_supported_len(entry.content@.len())
    } else {
        forall|i: int|
            0 <= i < entry.children@.len() ==> is_loadable(#[trigger] entry.children@[i])
    }
}

/// Tells whether the content of every file in `entry` and below it is within
/// the size that the library handles.
pub fn loadable(entry: &FsEntry) -> (fits: bool)
    ensures
        fits == is_loadable(*entry),
    decreases *entry,
{
    if entry.is_file {
        return is_supported(entry.content.as_slice());
    }
    let mut i: usize = 0;
    while i < entry.children.len()
        invariant
            i <= entry.children.len(),
            !entry.is_file,
            forall|j: int| 0 <= j < i ==> is_loadable(#[trigger] entry.children@[j]),
        decreases entry.children.len() - i,
    {
        if !loadable(&entry.children[i]) {
            return false;
        }
        i += 1;
    }
    true
}

/// The suffix that marks a label as carrying `extention`: a dot, then the
/// extension.
pub open spec fn dotted(extention: Seq<char>) -> Seq<char> {
    seq!['.'] + extention
}

/// Whether `label` carries `extention`.
pub open spec fn has_extention(extention: Seq<char>, label: Seq<char>) -> bool {
    dotted(extention).is_suffix_of(label)
}

/// Whether a directory keeps `node` among its children: a directory that has
/// kept something itself, or a file that carries the extension.
pub open spec fn is_kept(extention: Seq<char>, node: TreeView) -> bool {
    if node.is_file {
        has_extention(extention, node.label)
    } else {
        node.children.len() > 0
    }
}

/// The tree collected from `entry` for `extention`.
///
/// A file becomes a leaf, with the encoding of its content where its label
/// carries the extension and `Other` where it does not. A directory becomes a
/// node over what it keeps of its entries.
pub open spec fn collected(extention: Seq<char>, entry: FsEntry) -> TreeView
    decreases entry,
{
    if entry.is_file {
        TreeView {
            label: entry.label@,
            path: entry.path@,
            is_file: true,
            children: Seq::empty(),
            encoding: if has_extention(extention, entry.label@) {
                encoding_of(entry.content@)
            } else {
                EncodingType::Other
            },
        }
    } else {
        TreeView {
            label: entry.label@,
            path: entry.path@,
            is_file: false,
            children: collected_kept(extention, entry.children@),
            encoding: EncodingType::Other,
        }
    }
}

/// The trees collected from `entries` that a directory keeps, in the order of
/// the entries.
pub open spec fn collected_kept(extention: Seq<char>, entries: Seq<FsEntry>) -> Seq<TreeView>
    decreases entries,
{
    if entries.len() == 0 {
        Seq::empty()
    } else {
        let before = collected_kept(extention, entries.drop_last());
        let node = collected(extention, entries.last());
        if is_kept(extention, node) {
            before.push(node)
        } else {
            before
        }
    }
}

/// Whether a file that carries `extention` lies in `entry` or below it.
pub open spec fn holds_match(extention: Seq<char>, entry: FsEntry) -> bool
    decreases entry,
{
    if entry.is_file {
        has_extention(extention, entry.label@)
    } else {
        any_holds_match(extention, entry.children@)
    }
}

/// Whether a file that carries `extention` lies in one of `entries` or below
/// it.
pub open spec fn any_holds_match(extention: Seq<char>, entries: Seq<FsEntry>) -> bool
    decreases entries,
{
    entries.len() > 0 && (holds_match(extention, entries.last()) || any_holds_match(
        extention,
        entries.drop_last(),
    ))
}

/// Whether every node below the root of `tree` is one that its directory
/// keeps, and every file in it is a leaf.
pub open spec fn is_pruned(extention: Seq<char>, tree: TreeView) -> bool
    decreases tree,
{
    &&& tree.is_file ==> tree.children.len() == 0
    &&& forall|i: int|
        0 <= i < tree.children.len() ==> is_kept(extention, #[trigger] tree.children[i])
            && is_pruned(extention, tree.children[i])
}

/// Whether `target` is `root`, for depth 0, or lies `depth` levels below the
/// directory `root`.
pub open spec fn lies_at(root: FsEntry, target: FsEntry, depth: nat) -> bool
    decreases depth,
{
    if depth == 0 {
        root == target
    } else {
        !root.is_file && exists|i: int|
            0 <= i < root.children@.len() && lies_at(
                #[trigger] root.children@[i],
                target,
                (depth - 1) as nat,
            )
    }
}

/// Whether `target` is `tree`, for depth 0, or is reached from `tree` by a
/// chain of `depth` children.
pub open spec fn reaches(tree: TreeView, target: TreeView, depth: nat) -> bool
    decreases depth,
{
    if depth == 0 {
        tree == target
    } else {
        exists|i: int|
            0 <= i < tree.children.len() && reaches(
                #[trigger] tree.children[i],
                target,
                (depth - 1) as nat,
            )
    }
}

/// A directory keeps the tree collected from an entry exactly where a file
/// that carries the extension lies in that entry or below it.
pub proof fn lemma_kept_iff_holds_match(extention: Seq<char>, entry: FsEntry)
    ensures
        is_kept(extention, collected(extention, entry)) <==> holds_match(extention, entry),
    decreases entry,
{
    if !entry.is_file {
        lemma_some_kept_iff_any_holds_match(extention, entry.children@);
    }
}

/// Something is kept of a sequence of entries exactly where a file that
/// carries the extension lies in one of them or below it.
pub proof fn lemma_some_kept_iff_any_holds_match(extention: Seq<char>, entries: Seq<FsEntry>)
    ensures
        collected_kept(extention, entries).len() > 0 <==> any_holds_match(extention, entries),
    decreases entries,
{
    if entries.len() > 0 {
        lemma_some_kept_iff_any_holds_match(extention, entries.drop_last());
        lemma_kept_iff_holds_match(extention, entries.last());
    }
}

/// Pruning: a directory under which no file carries the extension is
/// collected as a root without children.
pub proof fn lemma_collect_prunes_all(extention: Seq<char>, root: FsEntry)
    requires
        !root.is_file,
        !holds_match(extention, root),
    ensures
        collected(extention, root).children.len() == 0,
        collected(extention, root).label == root.label@,
        collected(extention, root).path == root.path@,
        !collected(extention, root).is_file,
{
    lemma_some_kept_iff_any_holds_match(extention, root.children@);
}

/// In a sequence of entries of which each is a file without the extension or
/// a directory without entries, no file carries the extension.
pub proof fn lemma_no_match_among_plain(extention: Seq<char>, entries: Seq<FsEntry>)
    requires
        forall|i: int|
            0 <= i < entries.len() ==> if (#[trigger] entries[i]).is_file {
                !has_extention(extention, entries[i].label@)
            } else {
                entries[i].children@.len() == 0
            },
    ensures
        !any_holds_match(extention, entries),
    decreases entries.len(),
{
    if entries.len() > 0 {
        let before = entries.drop_last();
        assert forall|i: int| 0 <= i < before.len() implies if (#[trigger] before[i]).is_file {
            !has_extention(extention, before[i].label@)
        } else {
            before[i].children@.len() == 0
        } by {
            assert(before[i] == entries[i]);
        }
        lemma_no_match_among_plain(extention, before);
        let last = entries[entries.len() - 1];
        assert(last == entries.last());
        assert(!holds_match(extention, last));
    }
}

/// Pruning: a directory that holds only files without the extension and
/// directories without entries is collected as a root without children.
pub proof fn lemma_collect_prunes_plain(extention: Seq<char>, root: FsEntry)
    requires
        !root.is_file,
        forall|i: int|
            0 <= i < root.children@.len() ==> if (#[trigger] root.children@[i]).is_file {
                !has_extention(extention, root.children@[i].label@)
            } else {
                root.children@[i].children@.len() == 0
            },
    ensures
        collected(extention, root).children.len() == 0,
{
    lemma_no_match_among_plain(extention, root.children@);
    lemma_collect_prunes_all(extention, root);
}

/// Each tree kept of a sequence of entries is the tree collected from one of
/// them.
pub proof fn lemma_kept_comes_from_entry(extention: Seq<char>, entries: Seq<FsEntry>, j: int)
    requires
        0 <= j < collected_kept(extention, entries).len(),
    ensures
        is_kept(extention, collected_kept(extention, entries)[j]),
        exists|i: int|
            0 <= i < entries.len() && collected_kept(extention, entries)[j] == collected(
                extention,
                #[trigger] entries[i],
            ),
    decreases entries,
{
    let before = collected_kept(extention, entries.drop_last());
    if j < before.len() {
        lemma_kept_comes_from_entry(extention, entries.drop_last(), j);
        let i = choose|i: int|
            0 <= i < entries.drop_last().len() && before[j] == collected(
                extention,
                #[trigger] entries.drop_last()[i],
            );
        assert(entries[i] == entries.drop_last()[i]);
    } else {
        assert(collected_kept(extention, entries)[j] == collected(
            extention,
            entries[entries.len() - 1],
        ));
    }
}

/// The tree collected from an entry that a directory keeps stands among what
/// is kept of the directory's entries.
pub proof fn lemma_entry_with_match_is_kept(extention: Seq<char>, entries: Seq<FsEntry>, i: int)
    requires
        0 <= i < entries.len(),
        is_kept(extention, collected(extention, entries[i])),
    ensures
        exists|j: int|
            0 <= j < collected_kept(extention, entries).len() && #[trigger] collected_kept(
                extention,
                entries,
            )[j] == collected(extention, entries[i]),
    decreases entries,
{
    let kept = collected_kept(extention, entries);
    let before = collected_kept(extention, entries.drop_last());
    if i == entries.len() - 1 {
        assert(kept[kept.len() - 1] == collected(extention, entries[i]));
    } else {
        assert(entries.drop_last()[i] == entries[i]);
        lemma_entry_with_match_is_kept(extention, entries.drop_last(), i);
        let j = choose|j: int|
            0 <= j < before.len() && #[trigger] before[j] == collected(extention, entries[i]);
        assert(kept[j] == before[j]);
    }
}

/// Every collected tree is pruned: below its root each directory has kept
/// something, each file carries the extension, and files are leaves.
pub proof fn lemma_collected_is_pruned(extention: Seq<char>, root: FsEntry)
    ensures
        is_pruned(extention, collected(extention, root)),
    decreases root,
{
    let tree = collected(extention, root);
    if !root.is_file {
        assert forall|j: int| 0 <= j < tree.children.len() implies is_kept(
            extention,
            #[trigger] tree.children[j],
        ) && is_pruned(extention, tree.children[j]) by {
            lemma_kept_comes_from_entry(extention, root.children@, j);
            let i = choose|i: int|
                0 <= i < root.children@.len() && tree.children[j] == collected(
                    extention,
                    #[trigger] root.children@[i],
                );
            lemma_collected_is_pruned(extention, root.children@[i]);
        }
    }
}

/// Inclusion: a file that carries the extension and lies `depth` levels below
/// the root is reached from the collected root by a chain of `depth`
/// children, as a leaf with the file's label, path and encoding.
pub proof fn lemma_collect_reaches_match(
    extention: Seq<char>,
    root: FsEntry,
    file: FsEntry,
    depth: nat,
)
    requires
        file.is_file,
        has_extention(extention, file.label@),
        lies_at(root, file, depth),
    ensures
        reaches(collected(extention, root), collected(extention, file), depth),
        holds_match(extention, root),
        collected(extention, file) == (TreeView {
            label: file.label@,
            path: file.path@,
            is_file: true,
            children: Seq::empty(),
            encoding: encoding_of(file.content@),
        }),
    decreases depth,
{
    if depth > 0 {
        let i = choose|i: int|
            0 <= i < root.children@.len() && lies_at(
                #[trigger] root.children@[i],
                file,
                (depth - 1) as nat,
            );
        let child = root.children@[i];
        lemma_collect_reaches_match(extention, child, file, (depth - 1) as nat);
        lemma_kept_iff_holds_match(extention, child);
        lemma_entry_with_match_is_kept(extention, root.children@, i);
        let kept = collected_kept(extention, root.children@);
        let j = choose|j: int|
            0 <= j < kept.len() && #[trigger] kept[j] == collected(extention, child);
        assert(reaches(collected(extention, root).children[j], collected(extention, file), (depth - 1) as nat));
        lemma_some_kept_iff_any_holds_match(extention, root.children@);
    }
}

/// Collects the files of one extension.
pub struct Collector {
    extention: String,
}

impl Collector {
    /// The extension that is collected, without its dot.
    pub closed spec fn extention(&self) -> Seq<char> {
        self.extention@
    }

    /// A collector for `extention`, given without its dot.
    pub fn new(extention: &str) -> (collector: Collector)
        ensures
            collector.extention() == extention@,
    {
        Collector { extention: extention.to_owned() }
    }

    /// Tells whether `label` carries the extension.
    pub fn matches(&self, label: &str) -> (found: bool)
        ensures
            found == has_extention(self.extention(), label@),
    {
        let mut suffix = String::from_str(".");
        suffix.append(self.extention.as_str());
        proof {
            reveal_strlit(".");
            assert("."@ =~= seq!['.']);
        }
        ends_with(label, suffix.as_str())
    }

    /// Builds the tree of `root`.
    ///
    /// The root is returned whatever it holds; below it, a directory stays
    /// only if it keeps something, and a file only if it carries the
    /// extension.
    pub fn collect(&self, root: &FsEntry) -> (tree: TreeNode)
        requires
            is_loadable(*root),
        ensures
            tree@ == collected(self.extention(), *root),
        decreases *root,
    {
        if root.is_file {
            let encoding = if self.matches(root.label.as_str()) {
                detect_encoding(root.content.as_slice())
            } else {
                EncodingType::Other
            };
            return TreeNode {
                label: root.label.clone(),
                path: root.path.clone(),
                is_file: true,
                children: Vec::new(),
                encoding,
            };
        }
        let mut children: Vec<TreeNode> = Vec::new();
        let mut i: usize = 0;
        while i < root.children.len()
            invariant
                i <= root.children.len(),
                is_loadable(*root),
                !root.is_file,
                tree_views(children@) == collected_kept(
                    self.extention(),
                    root.children@.subrange(0, i as int),
                ),
            decreases root.children.len() - i,
        {
            let node = self.collect(&root.children[i]);
            let ghost before = children@;
            let kept = if node.is_file {
                self.matches(node.label.as_str())
            } else {
                node.children.len() > 0
            };
            proof {
                let seen = root.children@.subrange(0, i + 1);
                assert(seen.drop_last() == root.children@.subrange(0, i as int));
                assert(seen.last() == root.children@[i as int]);
            }
            if kept {
                children.push(node);
                assert(children@.drop_last() == before);
            }
            i += 1;
        }
        assert(root.children@.subrange(0, i as int) == root.children@);
        TreeNode {
            label: root.label.clone(),
            path: root.path.clone(),
            is_file: false,
            children,
            encoding: EncodingType::Other,
        }
    }
}

} // verus!
