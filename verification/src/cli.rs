//! The command line of the search tool: which searches a run performs.

use vstd::prelude::*;

verus! {

/// The command line: the directory to search in, the query, and the
/// switches for the remote search.
pub struct Args {
    pub dir: String,
    pub query: String,
    pub remote: bool,
    pub remote_only: bool,
}

/// The searches that a run performs.
pub struct SearchModes {
    pub local: bool,
    pub remote: bool,
}

impl Args {
    /// The searches a run performs; `None` when it would perform none.
    pub open spec fn spec_modes(&self) -> Option<SearchModes> {
        if !self.remote && self.remote_only {
            None
        } else {
            Some(SearchModes { local: !self.remote_only, remote: self.remote })
        }
    }

    /// The searches to perform. `--remote-only` without `--remote`
    /// selects none and is refused (`None`); otherwise the local search
    /// runs unless `--remote-only` is given, and the remote one runs when
    /// `--remote` is given.
    pub fn modes(&self) -> (m: Option<SearchModes>)
        ensures
            m == self.spec_modes(),
            m is None <==> (self.remote_only && !self.remote),
            m matches Some(modes) ==> modes.local == !self.remote_only && modes.remote == self.remote,
    {
        if !self.remote && self.remote_only {
            None
        } else {
            Some(SearchModes { local: !self.remote_only, remote: self.remote })
        }
    }
}

/// Which searches a run performs, spelled out: only `--remote-only`
/// without `--remote` is refused; otherwise the local search runs unless
/// `--remote-only` is given and the remote one runs with `--remote`.
pub proof fn lemma_modes_meaning(args: Args)
    ensures
        args.spec_modes() is None <==> (args.remote_only && !args.remote),
        args.spec_modes() matches Some(modes) ==> modes.local == !args.remote_only && modes.remote == args.remote,
{
}

/// The searches a run performs depend on the two switches alone, not on
/// the directory or the query.
pub proof fn lemma_modes_ignore_dir_and_query(a: Args, b: Args)
    requires
        a.remote == b.remote,
        a.remote_only == b.remote_only,
    ensures
        a.spec_modes() == b.spec_modes(),
{
}

/// A run that is accepted performs at least one search.
pub proof fn lemma_accepted_run_searches(args: Args)
    requires
        args.spec_modes() is Some,
    ensures
        args.spec_modes()->0.local || args.spec_modes()->0.remote,
{
}

} // verus!
