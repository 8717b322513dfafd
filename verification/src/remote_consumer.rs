//! The consumer of a search run for a remote client: its hits become
//! responses on the client's stream.

use vstd::prelude::*;
use crate::defs::{DirContent, EntryKind, SearchMatch};
use crate::matching::{lemma_batch_hits_are_lowercase_occurrences, matching_paths, report_match, select_matches, spec_report};
use crate::text::lowercase;

verus! {

pub struct RemoteConsumer {}

impl RemoteConsumer {
    /// The paths in `dir_content_vec` that match `query`
    /// (case-insensitively), in the order in which they were listed.
    pub fn consume(dir_content_vec: Vec<DirContent>, query: String) -> (found: Vec<String>)
        ensures
            found@ == matching_paths(dir_content_vec@, query@),
            forall|i: int, k: int|
                0 <= i < dir_content_vec@.len() && 0 <= k
                    && k + lowercase(query@).len() <= lowercase(dir_content_vec@[i].path_string()@).len()
                    && #[trigger] lowercase(dir_content_vec@[i].path_string()@).subrange(k, k + lowercase(query@).len())
                        == lowercase(query@)
                ==> found@.contains(dir_content_vec@[i].path_string()),
    {
        proof {
            lemma_batch_hits_are_lowercase_occurrences(dir_content_vec@, query@);
        }
        select_matches(&dir_content_vec, query.as_str())
    }

    /// The response sent for a hit: its path and whether it is a
    /// directory; none when the path is neither a file nor a directory.
    pub fn response(path: String, kind: EntryKind) -> (r: Option<SearchMatch>)
        ensures
            r == spec_report(path, kind),
            r is None <==> kind is Other,
            r matches Some(m) ==> m.path == path && m.is_directory == (kind is Directory),
    {
        report_match(path, kind)
    }
}

} // verus!
