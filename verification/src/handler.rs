//! The per-path step of the first, recursive search: one path is looked
//! at, reported when it holds the query (case-sensitively), and listed
//! when it is a directory.

use vstd::prelude::*;
use crate::defs::{EntryKind, SearchMatch};
use crate::matching::{report_match, spec_report};
use crate::text::{contains, contains_seq, lemma_contains_transitive};

verus! {

/// What to do with one path: the report to print, if any, and whether
/// to list the path's entries and process each of them in turn.
pub struct ProcessStep {
    pub report: Option<SearchMatch>,
    pub descend: bool,
}

/// The report for `path` under `query`: the file or directory report
/// when `query` occurs in the path (respecting case), none otherwise.
pub open spec fn spec_process_report(path: String, query: Seq<char>, kind: EntryKind) -> Option<SearchMatch> {
    if contains_seq(path@, query) {
        spec_report(path, kind)
    } else {
        None
    }
}

/// Processes `path`, which the file system says is `kind`. The path is
/// reported when `query` occurs in it (respecting case) and it is a file
/// or a directory; only a directory is descended into.
pub fn process(path: String, query: &str, kind: EntryKind) -> (step: ProcessStep)
    ensures
        step.descend == (kind is Directory),
        step.report == spec_process_report(path, query@, kind),
        step.report is Some <==> (!(kind is Other) && exists|k: int|
            0 <= k && k + query@.len() <= path@.len() && #[trigger] path@.subrange(k, k + query@.len()) == query@),
        step.report matches Some(m) ==> m.path == path && m.is_directory == (kind is Directory),
{
    let descend = match kind {
        EntryKind::Directory => true,
        _ => false,
    };
    let report = if contains(path.as_str(), query) {
        report_match(path, kind)
    } else {
        None
    };
    proof {
        lemma_process_report_meaning(path, query@, kind);
    }
    ProcessStep { report, descend }
}

/// What `process` reports, spelled out: a path is reported exactly when
/// the query occurs in it, respecting case, and the file system says it
/// is a file or a directory; the report carries the path and says
/// whether it is a directory. Nothing else about the path counts.
pub proof fn lemma_process_report_meaning(path: String, query: Seq<char>, kind: EntryKind)
    ensures
        spec_process_report(path, query, kind) is Some <==> (!(kind is Other) && exists|k: int|
            0 <= k && k + query.len() <= path@.len() && #[trigger] path@.subrange(k, k + query.len()) == query),
        spec_process_report(path, query, kind) matches Some(m) ==>
            m.path == path && m.is_directory == (kind is Directory),
{
    if contains_seq(path@, query) {
        let k = choose|k: int| crate::text::occurs_at(path@, query, k);
        assert(path@.subrange(k, k + query.len()) == query);
    }
    if exists|k: int|
        0 <= k && k + query.len() <= path@.len() && #[trigger] path@.subrange(k, k + query.len()) == query {
        let k = choose|k: int|
            0 <= k && k + query.len() <= path@.len() && #[trigger] path@.subrange(k, k + query.len()) == query;
        assert(crate::text::occurs_at(path@, query, k));
    }
}

/// Narrowing a query loses no hit: a path reported for `query` is
/// reported, with the same report, for every part of `query`.
pub proof fn lemma_narrower_query_same_report(path: String, query: Seq<char>, part: Seq<char>, kind: EntryKind)
    requires
        spec_process_report(path, query, kind) is Some,
        contains_seq(query, part),
    ensures
        spec_process_report(path, part, kind) == spec_process_report(path, query, kind),
{
    lemma_contains_transitive(path@, query, part);
}

} // verus!
