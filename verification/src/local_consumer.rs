//! The consumer of a local search: it picks the hits out of a batch of
//! entries, to be printed once the file system has said what each is.

use vstd::prelude::*;
use crate::defs::{DirContent, EntryKind, SearchMatch};
use crate::matching::{lemma_batch_hits_are_lowercase_occurrences, matching_paths, report_match, select_matches, spec_report};
use crate::text::lowercase;

verus! {

pub struct LocalConsumer {}

impl LocalConsumer {
    /// The paths in `dir_content_vec` that match `query`
    /// (case-insensitively), in the order in which they were listed.
    pub fn consume(dir_content_vec: Vec<DirContent>, query: String) -> (found: Vec<String>)
        ensures
            found@ == matching_paths(dir_content_vec@, query@),
            forall|i: int, k: int|
                0 <= i < dir_content_vec@.len() && 0 <= k
                    && k + lowercase(query@).len() <= lowercase(dir_content_vec@[i].path_string()@).len()
                    && #[trigger] lowercase(dir_content_vec@[i].path_string()@).subrange(k, k + lowercase(query@).len())
                        == lowercase(query@)
                ==> found@.contains(dir_content_vec@[i].path_string()),
    {
        proof {
            lemma_batch_hits_are_lowercase_occurrences(dir_content_vec@, query@);
        }
        select_matches(&dir_content_vec, query.as_str())
    }

    /// What is printed for a hit: a file or a directory match, or
    /// nothing when the path is neither any more.
    pub fn report(path: String, kind: EntryKind) -> (r: Option<SearchMatch>)
        ensures
            r == spec_report(path, kind),
            r is None <==> kind is Other,
            r matches Some(m) ==> m.path == path && m.is_directory == (kind is Directory),
    {
        report_match(path, kind)
    }
}

} // verus!
