//! The order of work in a refresh: the index mirror is fetched, the package
//! store is brought up to date with it, the advisory database is loaded anew,
//! and the worker rests until the next round.
//!
//! The work itself is done by whoever drives the refresh; this module only
//! says what comes next.

use vstd::prelude::*;

verus! {

/// A piece of work in a round of refreshing.
#[derive(Debug, Clone, Copy, PartialEq, Eq, Structural)]
pub enum Phase {
    /// Fetching the index mirror from upstream.
    Fetch,
    /// Bringing the package store up to date with the mirror.
    Ingest,
    /// Loading the advisory database anew.
    Advisories,
    /// Resting for the configured interval.
    Rest,
}

/// The piece of work that follows one that has ended. A failed fetch leaves
/// the store as it is and goes on to the advisories; nothing else depends on
/// how a piece of work ended.
pub open spec fn following(phase: Phase, succeeded: bool) -> Phase {
    match phase {
        Phase::Fetch => if succeeded {
            Phase::Ingest
        } else {
            Phase::Advisories
        },
        Phase::Ingest => Phase::Advisories,
        Phase::Advisories => Phase::Rest,
        Phase::Rest => Phase::Fetch,
    }
}

impl Phase {
    /// The piece of work that a round begins with.
    pub fn first() -> (r: Phase)
        ensures
            r == Phase::Fetch,
    {
        Phase::Fetch
    }

    /// The piece of work that follows this one, given whether this one
    /// succeeded.
    pub fn next(self, succeeded: bool) -> (r: Phase)
        ensures
            r == following(self, succeeded),
    {
        match self {
            Phase::Fetch => if succeeded {
                Phase::Ingest
            } else {
                Phase::Advisories
            },
            Phase::Ingest => Phase::Advisories,
            Phase::Advisories => Phase::Rest,
            Phase::Rest => Phase::Fetch,
        }
    }
}

/// Whatever fails, every round loads the advisories before it rests, and
/// after the rest a new round begins with a fetch.
pub proof fn lemma_no_round_is_skipped(fetched: bool, ingested: bool, loaded: bool, rested: bool)
    ensures
        following(Phase::Fetch, fetched) == Phase::Advisories || following(
            following(Phase::Fetch, fetched),
            ingested,
        ) == Phase::Advisories,
        following(Phase::Advisories, loaded) == Phase::Rest,
        following(Phase::Rest, rested) == Phase::Fetch,
{
}

/// The store is brought up to date only after a fetch that succeeded.
pub proof fn lemma_ingest_follows_a_good_fetch(phase: Phase, succeeded: bool)
    ensures
        following(phase, succeeded) == Phase::Ingest <==> phase == Phase::Fetch && succeeded,
{
}

} // verus!
