//! A whole search over a finite file tree. The producers and the
//! orchestrator run concurrently, so the order in which batches reach the
//! consumers varies; what a run hands to consumers, taken as a multiset,
//! does not. Here a run is laid out in one order: a directory's batch,
//! then the runs of the producers started on its subdirectories.

use vstd::prelude::*;
use vstd::multiset::Multiset;
use vstd::seq_lib::{group_to_multiset_ensures, lemma_multiset_commutative};
use crate::defs::DirContent;
use crate::matching::{
    lemma_ascii_case_same_hits, lemma_blank_query_keeps_every_path, lemma_matching_paths_concat,
    lemma_narrower_query_keeps_hits, matching_paths, paths_of,
};
use crate::orchestrator::spec_directories;
use crate::producer::{ListedEntry, spec_batch};
use crate::text::{ascii_uppercase, contains_seq, lowercase};
use vstd::utf8::is_ascii_chars;

verus! {

broadcast use group_to_multiset_ensures;

/// A finite file tree as listing shows it. `readable` says whether
/// listing the parent yields the node without error; `listable`, whether
/// a directory can be listed at all. Paths are full paths, as listing
/// yields them.
pub enum FsNode {
    File { path: String, readable: bool },
    Dir { path: String, readable: bool, listable: bool, children: Seq<FsNode> },
}

impl FsNode {
    pub open spec fn path(self) -> String {
        match self {
            FsNode::File { path, .. } => path,
            FsNode::Dir { path, .. } => path,
        }
    }

    pub open spec fn readable(self) -> bool {
        match self {
            FsNode::File { readable, .. } => readable,
            FsNode::Dir { readable, .. } => readable,
        }
    }

    /// What a listing of its parent yields for this node: the entry, or
    /// an error (`None`).
    pub open spec fn listed(self) -> Option<ListedEntry> {
        if self.readable() {
            Some(ListedEntry { path: self.path(), is_dir: self is Dir })
        } else {
            None
        }
    }

    /// The batch entry for this node.
    pub open spec fn entry(self) -> DirContent {
        match self {
            FsNode::File { path, .. } => DirContent::File(path),
            FsNode::Dir { path, .. } => DirContent::Dir(path),
        }
    }
}

/// The listing of a directory whose entries are `children`.
pub open spec fn listing_of(children: Seq<FsNode>) -> Seq<Option<ListedEntry>> {
    children.map_values(|c: FsNode| c.listed())
}

/// The batch entries of the nodes of `nodes` that listing yields, in order.
pub open spec fn readable_entries(nodes: Seq<FsNode>) -> Seq<DirContent>
    decreases nodes.len(),
{
    if nodes.len() == 0 {
        Seq::empty()
    } else {
        let earlier = readable_entries(nodes.drop_last());
        if nodes.last().readable() {
            earlier.push(nodes.last().entry())
        } else {
            earlier
        }
    }
}

/// The entries of the subdirectories among `nodes` that listing yields,
/// in order.
pub open spec fn directory_entries(nodes: Seq<FsNode>) -> Seq<DirContent>
    decreases nodes.len(),
{
    if nodes.len() == 0 {
        Seq::empty()
    } else {
        let earlier = directory_entries(nodes.drop_last());
        if nodes.last().readable() && nodes.last() is Dir {
            earlier.push(nodes.last().entry())
        } else {
            earlier
        }
    }
}

/// Every file and directory strictly below `node`, readable or not.
pub open spec fn below(node: FsNode) -> Seq<DirContent>
    decreases node,
{
    match node {
        FsNode::File { .. } => Seq::empty(),
        FsNode::Dir { children, .. } => below_all(children),
    }
}

/// Every node of `nodes` and everything below each.
pub open spec fn below_all(nodes: Seq<FsNode>) -> Seq<DirContent>
    decreases nodes,
{
    if nodes.len() == 0 {
        Seq::empty()
    } else {
        let last = nodes[nodes.len() - 1];
        below_all(nodes.subrange(0, nodes.len() - 1)) + seq![last.entry()] + below(last)
    }
}

/// What listing reaches strictly below `node`: the entries that listings
/// yield, starting from `node`, and what is reached below each of them.
/// Nothing is reached in a directory that cannot be listed, nor from an
/// entry that its listing does not yield.
pub open spec fn reached(node: FsNode) -> Seq<DirContent>
    decreases node,
{
    match node {
        FsNode::File { .. } => Seq::empty(),
        FsNode::Dir { listable, children, .. } => if listable {
            reached_all(children)
        } else {
            Seq::empty()
        },
    }
}

/// What listing reaches from the entries `nodes` of a listed directory.
pub open spec fn reached_all(nodes: Seq<FsNode>) -> Seq<DirContent>
    decreases nodes,
{
    if nodes.len() == 0 {
        Seq::empty()
    } else {
        let last = nodes[nodes.len() - 1];
        let earlier = reached_all(nodes.subrange(0, nodes.len() - 1));
        if last.readable() {
            earlier + seq![last.entry()] + reached(last)
        } else {
            earlier
        }
    }
}

/// What listing cannot reach strictly below `node`: everything inside a
/// directory that cannot be listed, and every entry that its listing does
/// not yield, with everything below it.
pub open spec fn hidden(node: FsNode) -> Seq<DirContent>
    decreases node,
{
    match node {
        FsNode::File { .. } => Seq::empty(),
        FsNode::Dir { listable, children, .. } => if listable {
            hidden_all(children)
        } else {
            below_all(children)
        },
    }
}

/// What listing cannot reach from the entries `nodes` of a listed directory.
pub open spec fn hidden_all(nodes: Seq<FsNode>) -> Seq<DirContent>
    decreases nodes,
{
    if nodes.len() == 0 {
        Seq::empty()
    } else {
        let last = nodes[nodes.len() - 1];
        let earlier = hidden_all(nodes.subrange(0, nodes.len() - 1));
        if last.readable() {
            earlier + hidden(last)
        } else {
            earlier + seq![last.entry()] + below(last)
        }
    }
}

/// What the run of a producer started on `node` hands to consumers: the
/// batch of its listing, then what the runs of the producers started on
/// the subdirectories in that batch hand over. A directory that cannot be
/// listed sends no batch; no producer is started on a file.
pub open spec fn run_consumed(node: FsNode) -> Seq<DirContent>
    decreases node,
{
    match node {
        FsNode::File { .. } => Seq::empty(),
        FsNode::Dir { listable, children, .. } => if listable {
            spec_batch(listing_of(children)) + runs_consumed(children)
        } else {
            Seq::empty()
        },
    }
}

/// What the runs started on the yielded entries among `nodes` hand over.
pub open spec fn runs_consumed(nodes: Seq<FsNode>) -> Seq<DirContent>
    decreases nodes,
{
    if nodes.len() == 0 {
        Seq::empty()
    } else {
        let last = nodes[nodes.len() - 1];
        let earlier = runs_consumed(nodes.subrange(0, nodes.len() - 1));
        if last.readable() {
            earlier + run_consumed(last)
        } else {
            earlier
        }
    }
}

/// What the consumers of a run started on `node` find for `query`: for
/// each batch, the consumer's hits.
pub open spec fn run_found(node: FsNode, query: Seq<char>) -> Seq<String>
    decreases node,
{
    match node {
        FsNode::File { .. } => Seq::empty(),
        FsNode::Dir { listable, children, .. } => if listable {
            matching_paths(spec_batch(listing_of(children)), query) + runs_found(children, query)
        } else {
            Seq::empty()
        },
    }
}

/// What the consumers of the runs started on the yielded entries among
/// `nodes` find.
pub open spec fn runs_found(nodes: Seq<FsNode>, query: Seq<char>) -> Seq<String>
    decreases nodes,
{
    if nodes.len() == 0 {
        Seq::empty()
    } else {
        let last = nodes[nodes.len() - 1];
        let earlier = runs_found(nodes.subrange(0, nodes.len() - 1), query);
        if last.readable() {
            earlier + run_found(last, query)
        } else {
            earlier
        }
    }
}

/// The producer of a listed directory sends the entries that its listing
/// yields, in order.
pub proof fn lemma_batch_of_listing(children: Seq<FsNode>)
    ensures
        spec_batch(listing_of(children)) == readable_entries(children),
    decreases children.len(),
{
    if children.len() > 0 {
        let init = children.drop_last();
        lemma_batch_of_listing(init);
        assert(listing_of(children).drop_last() =~= listing_of(init));
    }
}

/// The orchestrator starts producers on exactly the yielded
/// subdirectories of a listed directory, in order: these are the runs
/// that `run_consumed` follows.
pub proof fn lemma_producers_started(children: Seq<FsNode>)
    ensures
        spec_directories(spec_batch(listing_of(children))) == directory_entries(children),
    decreases children.len(),
{
    lemma_batch_of_listing(children);
    if children.len() > 0 {
        let init = children.drop_last();
        lemma_producers_started(init);
        lemma_batch_of_listing(init);
        let last = children.last();
        if last.readable() {
            let batch = readable_entries(children);
            assert(batch.drop_last() =~= readable_entries(init));
            assert(batch.last() == last.entry());
            assert(last.entry() is Dir <==> last is Dir);
        }
    }
}

proof fn lemma_node_consumed(node: FsNode)
    ensures
        run_consumed(node).to_multiset() =~= reached(node).to_multiset(),
    decreases node,
{
    match node {
        FsNode::File { .. } => {},
        FsNode::Dir { listable, children, .. } => {
            if listable {
                lemma_batch_of_listing(children);
                lemma_nodes_consumed(children);
            }
        },
    }
}

proof fn lemma_nodes_consumed(nodes: Seq<FsNode>)
    ensures
        (readable_entries(nodes) + runs_consumed(nodes)).to_multiset() =~= reached_all(nodes).to_multiset(),
    decreases nodes,
{
    broadcast use vstd::multiset::group_multiset_axioms;
    if nodes.len() == 0 {
        assert(readable_entries(nodes) + runs_consumed(nodes) =~= Seq::<DirContent>::empty());
    } else {
        let init = nodes.subrange(0, nodes.len() - 1);
        let last = nodes[nodes.len() - 1];
        assert(nodes.drop_last() =~= init);
        lemma_nodes_consumed(init);
        lemma_node_consumed(last);
        let ei = readable_entries(init);
        let ri = runs_consumed(init);
        if last.readable() {
            let rl = run_consumed(last);
            let bi = reached_all(init);
            let bl = reached(last);
            let e = seq![last.entry()];
            assert(readable_entries(nodes) + runs_consumed(nodes) =~= (ei + e) + (ri + rl));
            assert(reached_all(nodes) =~= (bi + e) + bl);
            lemma_multiset_commutative(ei + e, ri + rl);
            lemma_multiset_commutative(ei, e);
            lemma_multiset_commutative(ri, rl);
            lemma_multiset_commutative(ei, ri);
            lemma_multiset_commutative(bi + e, bl);
            lemma_multiset_commutative(bi, e);
        } else {
            assert(readable_entries(nodes) + runs_consumed(nodes) =~= ei + ri);
        }
    }
}

proof fn lemma_node_splits(node: FsNode)
    ensures
        below(node).to_multiset() =~= reached(node).to_multiset().add(hidden(node).to_multiset()),
    decreases node,
{
    broadcast use vstd::multiset::group_multiset_axioms;
    match node {
        FsNode::File { .. } => {},
        FsNode::Dir { listable, children, .. } => {
            if listable {
                lemma_nodes_split(children);
            }
        },
    }
}

proof fn lemma_nodes_split(nodes: Seq<FsNode>)
    ensures
        below_all(nodes).to_multiset() =~= reached_all(nodes).to_multiset().add(hidden_all(nodes).to_multiset()),
    decreases nodes,
{
    broadcast use vstd::multiset::group_multiset_axioms;
    if nodes.len() > 0 {
        let init = nodes.subrange(0, nodes.len() - 1);
        let last = nodes[nodes.len() - 1];
        lemma_nodes_split(init);
        lemma_node_splits(last);
        let bi = below_all(init);
        let ri = reached_all(init);
        let hi = hidden_all(init);
        let e = seq![last.entry()];
        let bl = below(last);
        lemma_multiset_commutative(bi + e, bl);
        lemma_multiset_commutative(bi, e);
        if last.readable() {
            let rl = reached(last);
            let hl = hidden(last);
            lemma_multiset_commutative(ri + e, rl);
            lemma_multiset_commutative(ri, e);
            lemma_multiset_commutative(hi, hl);
        } else {
            lemma_multiset_commutative(hi + e, bl);
            lemma_multiset_commutative(hi, e);
        }
    }
}

/// A run hands to the consumers everything that listing reaches below its
/// root, each exactly once, and nothing else.
pub proof fn lemma_run_consumes_everything_reached_once(root: FsNode)
    ensures
        run_consumed(root).to_multiset() == reached(root).to_multiset(),
{
    lemma_node_consumed(root);
}

/// Everything below the root is either reached or hidden, each exactly
/// once: what a run hands over is everything below its root except what
/// lies inside a directory that cannot be listed or behind an entry that
/// its listing does not yield.
pub proof fn lemma_below_is_reached_and_hidden(root: FsNode)
    ensures
        below(root).to_multiset() == run_consumed(root).to_multiset().add(hidden(root).to_multiset()),
{
    lemma_node_splits(root);
    lemma_node_consumed(root);
}

/// A directory that cannot be listed hands nothing over, however much
/// lies below it.
pub proof fn lemma_unlistable_directory_reports_nothing(path: String, readable: bool, children: Seq<FsNode>, query: Seq<char>)
    ensures
        run_consumed(FsNode::Dir { path, readable, listable: false, children }) == Seq::<DirContent>::empty(),
        run_found(FsNode::Dir { path, readable, listable: false, children }, query) == Seq::<String>::empty(),
        hidden(FsNode::Dir { path, readable, listable: false, children }) == below(FsNode::Dir { path, readable, listable: false, children }),
{
}

/// Everything is readable in `node` and below it.
pub open spec fn fully_readable(node: FsNode) -> bool
    decreases node,
{
    match node {
        FsNode::File { .. } => true,
        FsNode::Dir { listable, children, .. } => listable && fully_readable_all(children),
    }
}

/// Every node of `nodes` is yielded by listing and fully readable.
pub open spec fn fully_readable_all(nodes: Seq<FsNode>) -> bool
    decreases nodes,
{
    if nodes.len() == 0 {
        true
    } else {
        let last = nodes[nodes.len() - 1];
        fully_readable_all(nodes.subrange(0, nodes.len() - 1)) && last.readable() && fully_readable(last)
    }
}

proof fn lemma_nothing_hidden(node: FsNode)
    requires
        fully_readable(node),
    ensures
        hidden(node) == Seq::<DirContent>::empty(),
    decreases node,
{
    match node {
        FsNode::File { .. } => {},
        FsNode::Dir { children, .. } => {
            lemma_nothing_hidden_all(children);
        },
    }
}

proof fn lemma_nothing_hidden_all(nodes: Seq<FsNode>)
    requires
        fully_readable_all(nodes),
    ensures
        hidden_all(nodes) == Seq::<DirContent>::empty(),
    decreases nodes,
{
    if nodes.len() > 0 {
        let init = nodes.subrange(0, nodes.len() - 1);
        let last = nodes[nodes.len() - 1];
        lemma_nothing_hidden_all(init);
        lemma_nothing_hidden(last);
        assert(hidden_all(nodes) =~= Seq::<DirContent>::empty());
    }
}

/// When everything can be read, a run hands over every file and
/// directory strictly below its root, each exactly once.
pub proof fn lemma_run_consumes_everything_below_once(root: FsNode)
    requires
        fully_readable(root),
    ensures
        run_consumed(root).to_multiset() == below(root).to_multiset(),
{
    broadcast use vstd::multiset::group_multiset_axioms;
    lemma_below_is_reached_and_hidden(root);
    lemma_nothing_hidden(root);
    assert(hidden(root).to_multiset() =~= Multiset::<DirContent>::empty());
    assert(below(root).to_multiset() =~= run_consumed(root).to_multiset());
}

proof fn lemma_node_found(node: FsNode, query: Seq<char>)
    ensures
        run_found(node, query) == matching_paths(run_consumed(node), query),
    decreases node,
{
    match node {
        FsNode::File { .. } => {
            assert(matching_paths(run_consumed(node), query) =~= Seq::<String>::empty());
        },
        FsNode::Dir { listable, children, .. } => {
            if listable {
                lemma_nodes_found(children, query);
                lemma_matching_paths_concat(spec_batch(listing_of(children)), runs_consumed(children), query);
            } else {
                assert(matching_paths(run_consumed(node), query) =~= Seq::<String>::empty());
            }
        },
    }
}

proof fn lemma_nodes_found(nodes: Seq<FsNode>, query: Seq<char>)
    ensures
        runs_found(nodes, query) == matching_paths(runs_consumed(nodes), query),
    decreases nodes,
{
    if nodes.len() == 0 {
        assert(matching_paths(runs_consumed(nodes), query) =~= Seq::<String>::empty());
    } else {
        let init = nodes.subrange(0, nodes.len() - 1);
        let last = nodes[nodes.len() - 1];
        lemma_nodes_found(init, query);
        lemma_node_found(last, query);
        lemma_matching_paths_concat(runs_consumed(init), run_consumed(last), query);
        if !last.readable() {
            assert(runs_consumed(nodes) == runs_consumed(init));
        }
    }
}

/// What the consumers of a whole run find is what one consumer would find
/// in everything the run hands over.
pub proof fn lemma_run_found_is_hits_of_consumed(root: FsNode, query: Seq<char>)
    ensures
        run_found(root, query) == matching_paths(run_consumed(root), query),
{
    lemma_node_found(root, query);
}

/// Two collections of entries with the same multiset have paths with the
/// same multiset.
proof fn lemma_paths_same_multiset(a: Seq<DirContent>, b: Seq<DirContent>)
    requires
        a.to_multiset() == b.to_multiset(),
    ensures
        paths_of(a).to_multiset() == paths_of(b).to_multiset(),
    decreases a.len(),
{
    broadcast use vstd::multiset::group_multiset_axioms;
    if a.len() == 0 {
        assert(a.to_multiset().len() == a.len());
        assert(b.to_multiset().len() == b.len());
        assert(b.len() == 0);
        assert(paths_of(a) =~= paths_of(b));
    } else {
        let x = a.last();
        let init = a.drop_last();
        assert(init.push(x) =~= a);
        assert(a.to_multiset() =~= init.to_multiset().insert(x));
        assert(a.to_multiset().count(x) > 0);
        assert(b.contains(x));
        let i = choose|i: int| 0 <= i < b.len() && b[i] == x;
        let rest = b.remove(i);
        assert(rest.to_multiset() =~= b.to_multiset().remove(x));
        assert(rest.to_multiset() =~= init.to_multiset());
        lemma_paths_same_multiset(init, rest);
        let px = x.path_string();
        assert(paths_of(b).remove(i) =~= paths_of(rest));
        assert(paths_of(b)[i] == px);
        assert(paths_of(rest).to_multiset() =~= paths_of(b).to_multiset().remove(px));
        assert(paths_of(init).push(px) =~= paths_of(a));
        assert(paths_of(a).to_multiset() =~= paths_of(init).to_multiset().insert(px));
        assert(paths_of(b).contains(px));
        assert(paths_of(b).to_multiset().count(px) > 0);
        assert(paths_of(a).to_multiset() =~= paths_of(b).to_multiset());
    }
}

/// Narrowing the query over a whole run loses no hit: when the
/// lower-cased `part` occurs in the lower-cased `query`, every path the
/// consumers find for `query` they also find for `part` (and it is
/// reported the same way, as what the file system says it is).
pub proof fn lemma_run_narrower_query_keeps_hits(root: FsNode, query: Seq<char>, part: Seq<char>)
    requires
        contains_seq(lowercase(query), lowercase(part)),
    ensures
        forall|path: String| #[trigger] run_found(root, query).contains(path)
            ==> run_found(root, part).contains(path),
{
    lemma_run_found_is_hits_of_consumed(root, query);
    lemma_run_found_is_hits_of_consumed(root, part);
    lemma_narrower_query_keeps_hits(run_consumed(root), query, part);
}

/// With the empty query a run reports everything that listing reaches
/// below its root, each exactly once: the paths its consumers find are,
/// as a multiset, the paths reached.
pub proof fn lemma_run_blank_query_reports_everything_reached(root: FsNode, query: Seq<char>)
    requires
        query.len() == 0,
    ensures
        run_found(root, query).to_multiset() == paths_of(reached(root)).to_multiset(),
{
    lemma_run_found_is_hits_of_consumed(root, query);
    lemma_blank_query_keeps_every_path(run_consumed(root), query);
    lemma_run_consumes_everything_reached_once(root);
    lemma_paths_same_multiset(run_consumed(root), reached(root));
}

/// With the empty query, and everything readable, a run reports every
/// file and every directory strictly below its root, each exactly once.
pub proof fn lemma_run_blank_query_reports_everything(root: FsNode, query: Seq<char>)
    requires
        query.len() == 0,
        fully_readable(root),
    ensures
        run_found(root, query).to_multiset() == paths_of(below(root)).to_multiset(),
{
    lemma_run_found_is_hits_of_consumed(root, query);
    lemma_blank_query_keeps_every_path(run_consumed(root), query);
    lemma_run_consumes_everything_below_once(root);
    lemma_paths_same_multiset(run_consumed(root), below(root));
}

/// A run ignores ASCII case: an ASCII query and its upper case make the
/// consumers find the same paths, batch by batch.
pub proof fn lemma_run_ascii_case_same_hits(root: FsNode, query: Seq<char>)
    requires
        is_ascii_chars(query),
    ensures
        run_found(root, ascii_uppercase(query)) == run_found(root, query),
{
    lemma_run_found_is_hits_of_consumed(root, query);
    lemma_run_found_is_hits_of_consumed(root, ascii_uppercase(query));
    lemma_ascii_case_same_hits(run_consumed(root), query);
}

} // verus!
