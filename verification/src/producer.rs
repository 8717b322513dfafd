//! The producer: it turns the listing of one directory into a batch of
//! entries for the orchestrator.

use vstd::prelude::*;
use crate::defs::DirContent;

verus! {

/// One entry that a directory listing yielded: its path and whether the
/// file system says it is a directory.
pub struct ListedEntry {
    pub path: String,
    pub is_dir: bool,
}

/// The batch entry for a listed entry: a directory or a file.
pub open spec fn spec_classify(entry: ListedEntry) -> DirContent {
    if entry.is_dir {
        DirContent::Dir(entry.path)
    } else {
        DirContent::File(entry.path)
    }
}

/// The batch for a listing: every entry that could be read, classified,
/// in listing order; entries that could not be read (`None`) are skipped.
pub open spec fn spec_batch(listing: Seq<Option<ListedEntry>>) -> Seq<DirContent>
    decreases listing.len(),
{
    if listing.len() == 0 {
        Seq::empty()
    } else {
        let earlier = spec_batch(listing.drop_last());
        match listing.last() {
            Some(entry) => earlier.push(spec_classify(entry)),
            None => earlier,
        }
    }
}

/// Some readable entry of `listing` is classified as `d`.
pub open spec fn is_listed(listing: Seq<Option<ListedEntry>>, d: DirContent) -> bool {
    exists|i: int| 0 <= i < listing.len() && #[trigger] listing[i] is Some
        && spec_classify(listing[i]->0) == d
}

/// A batch holds exactly the classified readable entries of its listing:
/// no readable entry is lost, nothing else is added.
pub proof fn lemma_batch_exact(listing: Seq<Option<ListedEntry>>)
    ensures
        forall|d: DirContent| #[trigger] spec_batch(listing).contains(d) <==> is_listed(listing, d),
    decreases listing.len(),
{
    if listing.len() > 0 {
        let init = listing.drop_last();
        lemma_batch_exact(init);
        let batch = spec_batch(listing);
        let earlier = spec_batch(init);
        assert forall|d: DirContent| #[trigger] batch.contains(d) <==> is_listed(listing, d) by {
            if batch.contains(d) {
                let k = choose|k: int| 0 <= k < batch.len() && batch[k] == d;
                if listing.last() is Some && k == batch.len() - 1 {
                    assert(listing[listing.len() - 1] is Some);
                } else {
                    assert(earlier[k] == d);
                    assert(earlier.contains(d));
                    let i = choose|i: int| 0 <= i < init.len() && #[trigger] init[i] is Some
                        && spec_classify(init[i]->0) == d;
                    assert(listing[i] == init[i]);
                }
            }
            if is_listed(listing, d) {
                let i = choose|i: int| 0 <= i < listing.len() && #[trigger] listing[i] is Some
                    && spec_classify(listing[i]->0) == d;
                if i == listing.len() - 1 {
                    assert(batch[batch.len() - 1] == d);
                } else {
                    assert(init[i] == listing[i]);
                    assert(is_listed(init, d));
                    assert(earlier.contains(d));
                    let k = choose|k: int| 0 <= k < earlier.len() && earlier[k] == d;
                    assert(batch[k] == d);
                }
            }
        }
    }
}

pub struct SimpleProducer {}

impl SimpleProducer {
    /// The directory to list for the entry the producer was given.
    pub fn directory(current_dir: DirContent) -> (path: String)
        ensures
            path == current_dir.path_string(),
    {
        current_dir.into_path()
    }

    /// Classifies one listed entry.
    pub fn classify(entry: &ListedEntry) -> (d: DirContent)
        ensures
            d == spec_classify(*entry),
    {
        if entry.is_dir {
            DirContent::Dir(entry.path.clone())
        } else {
            DirContent::File(entry.path.clone())
        }
    }

    /// The batch for a directory listing. A directory that could not be
    /// read (`None`) yields no batch; otherwise every readable entry is
    /// classified, in order, and the batch is sent even when it is empty.
    pub fn produce(listing: Option<Vec<Option<ListedEntry>>>) -> (batch: Option<Vec<DirContent>>)
        ensures
            listing is None <==> batch is None,
            listing is Some ==> batch->0@ == spec_batch(listing->0@),
    {
        match listing {
            None => None,
            Some(entries) => {
                let mut files: Vec<DirContent> = Vec::new();
                let mut i: usize = 0;
                while i < entries.len()
                    invariant
                        i <= entries@.len(),
                        files@ == spec_batch(entries@.take(i as int)),
                    decreases entries@.len() - i,
                {
                    match &entries[i] {
                        Some(entry) => {
                            let d = Self::classify(entry);
                            files.push(d);
                        },
                        None => {},
                    }
                    assert(entries@.take(i + 1).drop_last() =~= entries@.take(i as int));
                    i = i + 1;
                }
                assert(entries@.take(entries@.len() as int) =~= entries@);
                Some(files)
            },
        }
    }
}

} // verus!
