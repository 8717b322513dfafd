//! The orchestrator's decisions. Each batch a producer sends is handed
//! whole to a consumer, and every directory in it to a new producer; the
//! search ends when no producer is left to send a batch.

use vstd::prelude::*;
use crate::defs::DirContent;
use crate::producer::{ListedEntry, is_listed, lemma_batch_exact, spec_batch, spec_classify};

verus! {

/// The directories of a batch, in batch order.
pub open spec fn spec_directories(batch: Seq<DirContent>) -> Seq<DirContent>
    decreases batch.len(),
{
    if batch.len() == 0 {
        Seq::empty()
    } else {
        let earlier = spec_directories(batch.drop_last());
        if batch.last() is Dir {
            earlier.push(batch.last())
        } else {
            earlier
        }
    }
}

/// The directories of a batch are exactly its entries that are
/// directories.
pub proof fn lemma_directories_exact(batch: Seq<DirContent>)
    ensures
        forall|d: DirContent| #[trigger] spec_directories(batch).contains(d)
            <==> (batch.contains(d) && d is Dir),
    decreases batch.len(),
{
    if batch.len() > 0 {
        let init = batch.drop_last();
        lemma_directories_exact(init);
        let dirs = spec_directories(batch);
        let earlier = spec_directories(init);
        assert forall|d: DirContent| #[trigger] dirs.contains(d) <==> (batch.contains(d) && d is Dir) by {
            if dirs.contains(d) {
                let k = choose|k: int| 0 <= k < dirs.len() && dirs[k] == d;
                if batch.last() is Dir && k == dirs.len() - 1 {
                    assert(batch[batch.len() - 1] == d);
                } else {
                    assert(earlier[k] == d);
                    assert(earlier.contains(d));
                    let i = choose|i: int| 0 <= i < init.len() && init[i] == d;
                    assert(batch[i] == d);
                }
            }
            if batch.contains(d) && d is Dir {
                let i = choose|i: int| 0 <= i < batch.len() && batch[i] == d;
                if i == batch.len() - 1 {
                    assert(dirs[dirs.len() - 1] == d);
                } else {
                    assert(init[i] == d);
                    assert(init.contains(d));
                    assert(earlier.contains(d));
                    let k = choose|k: int| 0 <= k < earlier.len() && earlier[k] == d;
                    assert(dirs[k] == d);
                }
            }
        }
    }
}

/// Nothing a producer lists is lost: every readable entry of a listing
/// goes, in the producer's batch, to a consumer, and every readable
/// subdirectory to a producer of its own; the orchestrator starts
/// producers on nothing else.
pub proof fn lemma_listing_fully_dispatched(listing: Seq<Option<ListedEntry>>)
    ensures
        forall|i: int| 0 <= i < listing.len() && #[trigger] listing[i] is Some ==>
            spec_batch(listing).contains(spec_classify(listing[i]->0)),
        forall|i: int| 0 <= i < listing.len() && #[trigger] listing[i] is Some && listing[i]->0.is_dir ==>
            spec_directories(spec_batch(listing)).contains(DirContent::Dir(listing[i]->0.path)),
        forall|d: DirContent| #[trigger] spec_directories(spec_batch(listing)).contains(d) ==>
            d is Dir && is_listed(listing, d),
{
    lemma_batch_exact(listing);
    lemma_directories_exact(spec_batch(listing));
    assert forall|i: int| 0 <= i < listing.len() && #[trigger] listing[i] is Some implies
        spec_batch(listing).contains(spec_classify(listing[i]->0)) by {
        assert(is_listed(listing, spec_classify(listing[i]->0)));
    }
    assert forall|i: int| 0 <= i < listing.len() && #[trigger] listing[i] is Some && listing[i]->0.is_dir implies
        spec_directories(spec_batch(listing)).contains(DirContent::Dir(listing[i]->0.path)) by {
        assert(is_listed(listing, spec_classify(listing[i]->0)));
        assert(spec_batch(listing).contains(spec_classify(listing[i]->0)));
    }
}

/// What the orchestrator does with one batch: start a producer on each
/// of `produce`, and a consumer on `consume` with `query`.
pub struct Dispatch {
    pub produce: Vec<DirContent>,
    pub consume: Vec<DirContent>,
    pub query: String,
}

/// The orchestrator's answer to an event.
pub enum Step {
    Dispatch(Dispatch),
    Stop,
}

pub struct SimpleOrchestrator {
    query: String,
    root_dir: String,
}

impl SimpleOrchestrator {
    /// The query searched for.
    pub closed spec fn spec_query(&self) -> String {
        self.query
    }

    /// The directory the search starts from.
    pub closed spec fn spec_root_dir(&self) -> String {
        self.root_dir
    }

    pub fn new(query: String, root_dir: String) -> (r: Self)
        ensures
            r.spec_query() == query,
            r.spec_root_dir() == root_dir,
    {
        Self { query, root_dir }
    }

    /// The query searched for.
    pub fn query(&self) -> (q: &String)
        ensures
            *q == self.spec_query(),
    {
        &self.query
    }

    /// The entry on which the first producer is started: the root
    /// directory.
    pub fn start(&self) -> (d: DirContent)
        ensures
            d == DirContent::Dir(self.spec_root_dir()),
    {
        DirContent::Dir(self.root_dir.clone())
    }

    /// The directories of a batch, in order.
    pub fn directories(batch: &Vec<DirContent>) -> (dirs: Vec<DirContent>)
        ensures
            dirs@ == spec_directories(batch@),
    {
        let mut dirs: Vec<DirContent> = Vec::new();
        let mut i: usize = 0;
        while i < batch.len()
            invariant
                i <= batch@.len(),
                dirs@ == spec_directories(batch@.take(i as int)),
            decreases batch@.len() - i,
        {
            if batch[i].is_dir() {
                dirs.push(batch[i].clone());
            }
            assert(batch@.take(i + 1).drop_last() =~= batch@.take(i as int));
            i = i + 1;
        }
        assert(batch@.take(batch@.len() as int) =~= batch@);
        dirs
    }

    /// Handles one event of the search loop: `Some(batch)` when a
    /// producer has sent a batch, `None` when no producer is left. A
    /// batch is handed whole to a consumer and each of its directories to
    /// a new producer; the end of the producers stops the search.
    pub fn handle(&self, event: Option<Vec<DirContent>>) -> (step: Step)
        ensures
            event is None <==> step is Stop,
            event is Some ==> (step matches Step::Dispatch(d) && {
                &&& d.produce@ == spec_directories(event->0@)
                &&& d.consume@ == event->0@
                &&& d.query == self.spec_query()
            }),
    {
        match event {
            None => Step::Stop,
            Some(batch) => {
                let produce = Self::directories(&batch);
                Step::Dispatch(Dispatch { produce, consume: batch, query: self.query.clone() })
            },
        }
    }
}

} // verus!
