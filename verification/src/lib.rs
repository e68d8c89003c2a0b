//! Encoding classification and normalisation of text files to UTF-8 with a
//! byte-order mark, and extension-filtered directory trees annotated with the
//! encoding of each file.
//!
//! The library works on values held in memory: a file is its path and its
//! bytes, a directory is a snapshot of its entries. Reading and writing the
//! file system is left to the caller.

use vstd::prelude::*;

use crate::coder::{is_supported_len, rewrite_of, Coder};
use crate::collector::{collected, is_loadable, Collector, FsEntry, TreeNode};

pub mod coder;
pub mod collector;
pub mod text;

verus! {

/// The extension of the files that `list_files` lists.
pub const SAS_EXTENTION: &'static str = "sas";

/// Lists the files with the extension `sas` under `root`, each with its
/// encoding.
pub fn list_files(root: &FsEntry) -> (tree: TreeNode)
    requires
        is_loadable(*root),
    ensures
        tree@ == collected(SAS_EXTENTION@, *root),
{
    let collector = Collector::new(SAS_EXTENTION);
    collector.collect(root)
}

/// Converts each file in turn and hands back, in the order of the files, what
/// has to be written to each.
pub fn convert_to_utf8bom(files: &[Coder]) -> (rewrites: Vec<Option<Vec<u8>>>)
    requires
        forall|i: int| 0 <= i < files@.len() ==> is_supported_len((#[trigger] files@[i]).content().len()),
    ensures
        rewrites@.len() == files@.len(),
        forall|i: int|
            0 <= i < files@.len() ==> match #[trigger] rewrites@[i] {
                Some(bytes) => rewrite_of(files@[i].content()) == Some(bytes@),
                None => rewrite_of(files@[i].content()) is None,
            },
{
    let mut rewrites: Vec<Option<Vec<u8>>> = Vec::new();
    let mut i: usize = 0;
    while i < files.len()
        invariant
            i <= files@.len(),
            rewrites@.len() == i,
            forall|j: int| 0 <= j < files@.len() ==> is_supported_len((#[trigger] files@[j]).content().len()),
            forall|j: int|
                0 <= j < i ==> match #[trigger] rewrites@[j] {
                    Some(bytes) => rewrite_of(files@[j].content()) == Some(bytes@),
                    None => rewrite_of(files@[j].content()) is None,
                },
        decreases files@.len() - i,
    {
        rewrites.push(files[i].convert_to_utf8bom());
        i += 1;
    }
    rewrites
}

/// Sum of two sizes.
pub fn add(left: usize, right: usize) -> (sum: usize)
    requires
        left + right <= usize::MAX,
    ensures
        sum == left + right,
{
    left + right
}

} // verus!
