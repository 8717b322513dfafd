//! When a path counts as a hit for a query, and how a hit is reported.

use vstd::prelude::*;
use crate::defs::{DirContent, EntryKind, SearchMatch};
use crate::text::{
    ascii_uppercase, contains, contains_seq, lemma_ascii_uppercase_same_lowercase, lemma_contains_transitive,
    lemma_empty_pattern_occurs, lemma_lowercase_of_empty, lowercase, to_lowercase,
};
use vstd::utf8::is_ascii_chars;

verus! {

/// A path matches a query when the lower-cased query occurs in the
/// lower-cased path.
pub open spec fn spec_matches_query(path: Seq<char>, query: Seq<char>) -> bool {
    contains_seq(lowercase(path), lowercase(query))
}

/// Case-insensitive match of `query` against `path`.
pub fn matches_query(path: &str, query: &str) -> (r: bool)
    ensures
        r == spec_matches_query(path@, query@),
        r == exists|k: int|
            0 <= k && k + lowercase(query@).len() <= lowercase(path@).len()
                && #[trigger] lowercase(path@).subrange(k, k + lowercase(query@).len()) == lowercase(query@),
{
    let lower_query = to_lowercase(query);
    proof {
        lemma_hit_is_lowercase_occurrence(path@, query@);
    }
    matches_lowered_query(path, lower_query.as_str())
}

/// Case-insensitive match of an already lower-cased query.
pub fn matches_lowered_query(path: &str, lower_query: &str) -> (r: bool)
    ensures
        r == contains_seq(lowercase(path@), lower_query@),
{
    let lower_path = to_lowercase(path);
    contains(lower_path.as_str(), lower_query)
}

/// The report for a path that matched, given what the file system says
/// it is: files and directories are reported, anything else is not.
pub open spec fn spec_report(path: String, kind: EntryKind) -> Option<SearchMatch> {
    match kind {
        EntryKind::File => Some(SearchMatch { path: path, is_directory: false }),
        EntryKind::Directory => Some(SearchMatch { path: path, is_directory: true }),
        EntryKind::Other => None,
    }
}

/// Turns a matching path into a report, as the consumers do after
/// asking the file system whether it is a file or a directory.
pub fn report_match(path: String, kind: EntryKind) -> (r: Option<SearchMatch>)
    ensures
        r == spec_report(path, kind),
        r is None <==> kind is Other,
        r matches Some(m) ==> m.path == path && m.is_directory == (kind is Directory),
{
    match kind {
        EntryKind::File => Some(SearchMatch { path: path, is_directory: false }),
        EntryKind::Directory => Some(SearchMatch { path: path, is_directory: true }),
        EntryKind::Other => None,
    }
}

/// A path is a hit for a query exactly when the lower-cased query occurs
/// somewhere in the lower-cased path; nothing else about the path counts.
pub proof fn lemma_hit_is_lowercase_occurrence(path: Seq<char>, query: Seq<char>)
    ensures
        spec_matches_query(path, query) <==> exists|k: int|
            0 <= k && k + lowercase(query).len() <= lowercase(path).len()
                && #[trigger] lowercase(path).subrange(k, k + lowercase(query).len()) == lowercase(query),
{
    let lp = lowercase(path);
    let lq = lowercase(query);
    if contains_seq(lp, lq) {
        let k = choose|k: int| crate::text::occurs_at(lp, lq, k);
        assert(lp.subrange(k, k + lq.len()) == lq);
    }
    if exists|k: int| 0 <= k && k + lq.len() <= lp.len() && #[trigger] lp.subrange(k, k + lq.len()) == lq {
        let k = choose|k: int| 0 <= k && k + lq.len() <= lp.len() && #[trigger] lp.subrange(k, k + lq.len()) == lq;
        assert(crate::text::occurs_at(lp, lq, k));
    }
}

/// A hit is reported as what the file system says it is: a file as a
/// file match, a directory as a directory match, each under its own
/// path; anything else is not reported.
pub proof fn lemma_report_follows_kind(path: String, kind: EntryKind)
    ensures
        spec_report(path, kind) is None <==> kind is Other,
        spec_report(path, kind) matches Some(m) ==> m.path == path && m.is_directory == (kind is Directory),
{
}

/// The paths of the entries whose path matches `query`, in listing order.
pub open spec fn matching_paths(entries: Seq<DirContent>, query: Seq<char>) -> Seq<String>
    decreases entries.len(),
{
    if entries.len() == 0 {
        Seq::empty()
    } else {
        let earlier = matching_paths(entries.drop_last(), query);
        let path = entries.last().path_string();
        if spec_matches_query(path@, query) {
            earlier.push(path)
        } else {
            earlier
        }
    }
}

/// The hits of two batches, one after the other, are the hits of the
/// first followed by those of the second.
pub proof fn lemma_matching_paths_concat(first: Seq<DirContent>, second: Seq<DirContent>, query: Seq<char>)
    ensures
        matching_paths(first + second, query) == matching_paths(first, query) + matching_paths(second, query),
    decreases second.len(),
{
    if second.len() == 0 {
        assert(first + second =~= first);
        assert(matching_paths(first, query) + matching_paths(second, query) =~= matching_paths(first, query));
    } else {
        assert((first + second).drop_last() =~= first + second.drop_last());
        assert((first + second).last() == second.last());
        lemma_matching_paths_concat(first, second.drop_last(), query);
        let earlier = matching_paths(first, query);
        let rest = matching_paths(second.drop_last(), query);
        if spec_matches_query(second.last().path_string()@, query) {
            assert((earlier + rest).push(second.last().path_string()) =~= earlier + rest.push(second.last().path_string()));
        }
    }
}

/// The paths of a batch, in order.
pub open spec fn paths_of(entries: Seq<DirContent>) -> Seq<String> {
    entries.map_values(|e: DirContent| e.path_string())
}

/// With the empty query, the hits of a batch are all its paths, in order.
pub proof fn lemma_blank_query_keeps_every_path(entries: Seq<DirContent>, query: Seq<char>)
    requires
        query.len() == 0,
    ensures
        matching_paths(entries, query) == paths_of(entries),
    decreases entries.len(),
{
    if entries.len() > 0 {
        lemma_blank_query_keeps_every_path(entries.drop_last(), query);
        lemma_lowercase_of_empty();
        assert(query =~= Seq::<char>::empty());
        lemma_empty_pattern_occurs(lowercase(entries.last().path_string()@));
        assert(paths_of(entries) =~= paths_of(entries.drop_last()).push(entries.last().path_string()));
    } else {
        assert(paths_of(entries) =~= Seq::<String>::empty());
    }
}

/// Keeps, in order, the paths of the entries that match `query`.
pub fn select_matches(entries: &Vec<DirContent>, query: &str) -> (found: Vec<String>)
    ensures
        found@ == matching_paths(entries@, query@),
{
    let lower_query = to_lowercase(query);
    let mut found: Vec<String> = Vec::new();
    let mut i: usize = 0;
    while i < entries.len()
        invariant
            i <= entries@.len(),
            lower_query@ == lowercase(query@),
            found@ == matching_paths(entries@.take(i as int), query@),
        decreases entries@.len() - i,
    {
        let path = entries[i].path();
        let hit = matches_lowered_query(path.as_str(), lower_query.as_str());
        if hit {
            found.push(path.clone());
        }
        assert(entries@.take(i + 1).drop_last() =~= entries@.take(i as int));
        i = i + 1;
    }
    assert(entries@.take(entries@.len() as int) =~= entries@);
    found
}

/// Some entry of `entries` has `path` as its path, and `path` matches `query`.
pub open spec fn is_hit(entries: Seq<DirContent>, query: Seq<char>, path: String) -> bool {
    exists|i: int| 0 <= i < entries.len() && #[trigger] entries[i].path_string() == path
        && spec_matches_query(path@, query)
}

/// The hits of a batch are exactly the paths of its entries that match
/// the query: nothing that matches is missed, nothing else is reported.
pub proof fn lemma_matching_paths_exact(entries: Seq<DirContent>, query: Seq<char>)
    ensures
        forall|path: String| #[trigger] matching_paths(entries, query).contains(path)
            <==> is_hit(entries, query, path),
    decreases entries.len(),
{
    if entries.len() > 0 {
        let init = entries.drop_last();
        lemma_matching_paths_exact(init, query);
        let found = matching_paths(entries, query);
        let earlier = matching_paths(init, query);
        let last = entries.last().path_string();
        assert forall|path: String| #[trigger] found.contains(path) <==> is_hit(entries, query, path) by {
            if found.contains(path) {
                let k = choose|k: int| 0 <= k < found.len() && found[k] == path;
                if spec_matches_query(last@, query) && k == found.len() - 1 {
                    assert(entries[entries.len() - 1].path_string() == path);
                } else {
                    assert(earlier[k] == path);
                    assert(earlier.contains(path));
                    let i = choose|i: int| 0 <= i < init.len() && #[trigger] init[i].path_string() == path
                        && spec_matches_query(path@, query);
                    assert(entries[i] == init[i]);
                }
            }
            if is_hit(entries, query, path) {
                let i = choose|i: int| 0 <= i < entries.len() && #[trigger] entries[i].path_string() == path
                    && spec_matches_query(path@, query);
                if i == entries.len() - 1 {
                    assert(found[found.len() - 1] == path);
                } else {
                    assert(init[i] == entries[i]);
                    assert(is_hit(init, query, path));
                    assert(earlier.contains(path));
                    let k = choose|k: int| 0 <= k < earlier.len() && earlier[k] == path;
                    assert(found[k] == path);
                }
            }
        }
    }
}

/// The hits of a batch, spelled out: an entry whose lower-cased path
/// holds the lower-cased query is among the hits, and every hit is the
/// path of such an entry.
pub proof fn lemma_batch_hits_are_lowercase_occurrences(entries: Seq<DirContent>, query: Seq<char>)
    ensures
        forall|i: int, k: int|
            0 <= i < entries.len() && 0 <= k
                && k + lowercase(query).len() <= lowercase(entries[i].path_string()@).len()
                && #[trigger] lowercase(entries[i].path_string()@).subrange(k, k + lowercase(query).len()) == lowercase(query)
            ==> matching_paths(entries, query).contains(entries[i].path_string()),
        forall|path: String| #[trigger] matching_paths(entries, query).contains(path) ==>
            exists|i: int, k: int|
                #![trigger entries[i], lowercase(path@).subrange(k, k + lowercase(query).len())]
                0 <= i < entries.len() && entries[i].path_string() == path && 0 <= k
                    && k + lowercase(query).len() <= lowercase(path@).len()
                    && lowercase(path@).subrange(k, k + lowercase(query).len()) == lowercase(query),
{
    lemma_matching_paths_exact(entries, query);
    assert forall|i: int, k: int|
        0 <= i < entries.len() && 0 <= k
            && k + lowercase(query).len() <= lowercase(entries[i].path_string()@).len()
            && #[trigger] lowercase(entries[i].path_string()@).subrange(k, k + lowercase(query).len()) == lowercase(query)
        implies matching_paths(entries, query).contains(entries[i].path_string()) by {
        let path = entries[i].path_string();
        assert(crate::text::occurs_at(lowercase(path@), lowercase(query), k));
        assert(is_hit(entries, query, path));
    }
    assert forall|path: String| #[trigger] matching_paths(entries, query).contains(path) implies
        exists|i: int, k: int|
            #![trigger entries[i], lowercase(path@).subrange(k, k + lowercase(query).len())]
            0 <= i < entries.len() && entries[i].path_string() == path && 0 <= k
                && k + lowercase(query).len() <= lowercase(path@).len()
                && lowercase(path@).subrange(k, k + lowercase(query).len()) == lowercase(query) by {
        assert(is_hit(entries, query, path));
        let i = choose|i: int| 0 <= i < entries.len() && #[trigger] entries[i].path_string() == path
            && spec_matches_query(path@, query);
        let k = choose|k: int| crate::text::occurs_at(lowercase(path@), lowercase(query), k);
        assert(0 <= i < entries.len() && entries[i].path_string() == path && 0 <= k
            && k + lowercase(query).len() <= lowercase(path@).len()
            && lowercase(path@).subrange(k, k + lowercase(query).len()) == lowercase(query));
    }
}

/// Matching ignores case: two queries with the same lower-case form find
/// the same hits, in the same order.
pub proof fn lemma_same_lowercase_same_hits(entries: Seq<DirContent>, query: Seq<char>, other: Seq<char>)
    requires
        lowercase(query) == lowercase(other),
    ensures
        matching_paths(entries, query) == matching_paths(entries, other),
    decreases entries.len(),
{
    if entries.len() > 0 {
        lemma_same_lowercase_same_hits(entries.drop_last(), query, other);
    }
}

/// The empty query matches every path: every entry of a batch is a hit.
pub proof fn lemma_blank_query_finds_all(entries: Seq<DirContent>, query: Seq<char>)
    requires
        query.len() == 0,
    ensures
        forall|i: int| 0 <= i < entries.len() ==>
            matching_paths(entries, query).contains(#[trigger] entries[i].path_string()),
{
    lemma_matching_paths_exact(entries, query);
    lemma_lowercase_of_empty();
    assert(query =~= Seq::<char>::empty());
    assert forall|i: int| 0 <= i < entries.len() implies
        matching_paths(entries, query).contains(#[trigger] entries[i].path_string()) by {
        let path = entries[i].path_string();
        assert(lowercase(query) =~= Seq::<char>::empty());
        lemma_empty_pattern_occurs(lowercase(path@));
        assert(is_hit(entries, query, path));
    }
}

/// Matching ignores ASCII case: an ASCII query and its upper case find
/// the same hits, in the same order.
pub proof fn lemma_ascii_case_same_hits(entries: Seq<DirContent>, query: Seq<char>)
    requires
        is_ascii_chars(query),
    ensures
        matching_paths(entries, ascii_uppercase(query)) == matching_paths(entries, query),
{
    lemma_ascii_uppercase_same_lowercase(query);
    lemma_same_lowercase_same_hits(entries, ascii_uppercase(query), query);
}

/// Narrowing a query loses no hit: when the lower-cased `part` occurs in
/// the lower-cased `query`, every hit of `query` is a hit of `part`.
pub proof fn lemma_narrower_query_keeps_hits(entries: Seq<DirContent>, query: Seq<char>, part: Seq<char>)
    requires
        contains_seq(lowercase(query), lowercase(part)),
    ensures
        forall|path: String| #[trigger] matching_paths(entries, query).contains(path)
            ==> matching_paths(entries, part).contains(path),
{
    lemma_matching_paths_exact(entries, query);
    lemma_matching_paths_exact(entries, part);
    assert forall|path: String| #[trigger] matching_paths(entries, query).contains(path)
        implies matching_paths(entries, part).contains(path) by {
        let i = choose|i: int| 0 <= i < entries.len() && #[trigger] entries[i].path_string() == path
            && spec_matches_query(path@, query);
        lemma_contains_transitive(lowercase(path@), lowercase(query), lowercase(part));
        assert(is_hit(entries, part, path));
    }
}

} // verus!
