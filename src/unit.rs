//! One unit of work: the decisions of searching one indexer for one local
//! torrent, as a state machine. The caller performs each request (a client
//! lookup, a search, a resolution, taking the fingerprint's lock) and feeds
//! back what came of it.
use vstd::prelude::*;
use crate::codec::Descriptor;
use crate::config::TorrentMode;
use crate::coordinator::UnitOutcome;
use crate::cross_seed::{
    decide_unit,
    decided,
    holds_fingerprint,
    CrossSeedAction,
    FailureKind,
    SkipReason,
    TorrentInfo,
};

verus! {

/// Where a unit of work stands.
#[derive(Clone, Copy, Debug, PartialEq, Eq, Structural)]
pub enum UnitPhase {
    /// Waiting for the client's records of the local fingerprint.
    FindingLocal,
    /// Waiting for the indexer's results.
    Searching,
    /// Waiting for the first result's metadata.
    Resolving,
    /// Waiting for the client's records of the found fingerprint.
    FindingFound,
    /// Waiting for the mutation lock of the local fingerprint.
    Locking,
    /// Holding the lock, waiting for the trackers configured on the local
    /// torrent.
    FetchingTrackers,
    Finished,
}

/// The state of a unit of work.
pub struct UnitState {
    pub phase: UnitPhase,
    /// The local torrent's fingerprint.
    pub local_fp: String,
    /// The local torrent's display name, which the indexer is searched for.
    pub name: String,
    /// Whether the unit holds the mutation lock of `local_fp`; the caller
    /// gives it back once the unit is over.
    pub holds_lock: bool,
    /// The client's record of the local torrent, once known.
    pub record: Option<TorrentInfo>,
    /// The resolved first result, once known.
    pub found: Option<Descriptor>,
}

impl UnitState {
    /// Trackers are only awaited while the lock is held.
    pub open spec fn wf(&self) -> bool {
        self.phase == UnitPhase::FetchingTrackers ==> self.holds_lock
    }
}

/// What the caller does next.
#[derive(Debug)]
pub enum UnitRequest {
    /// Look up the client's records with this fingerprint.
    FindRecords(String),
    /// Search the indexer with this query.
    Search(String),
    /// Resolve the first search result.
    ResolveFirst,
    /// Wait for and take the mutation lock of this fingerprint.
    Lock(String),
    /// Fetch the trackers configured on the client's torrent with this
    /// fingerprint.
    FetchTrackers(String),
    /// Perform this mutation; the lock of the local fingerprint is held.
    Act(CrossSeedAction),
    /// The unit is over.
    Finish(UnitOutcome),
}

/// What came of the last request.
pub enum UnitEvent {
    Records(Vec<TorrentInfo>),
    /// The number of search results.
    Hits(usize),
    Resolved(Descriptor),
    /// The lock was taken.
    Locked,
    Trackers(Vec<String>),
    /// The request failed.
    Failed,
}

/// Starts a unit of work for the local torrent with fingerprint `local_fp`
/// and display name `name`: the first request looks it up in the client.
pub fn start_unit(local_fp: String, name: String) -> (r: (UnitState, UnitRequest))
    ensures
        r.0.phase == UnitPhase::FindingLocal,
        r.0.wf(),
        r.0.local_fp@ == local_fp@,
        r.0.name@ == name@,
        !r.0.holds_lock,
        r.0.record.is_none(),
        r.0.found.is_none(),
        r.1 matches UnitRequest::FindRecords(fp) && fp@ == local_fp@,
{
    let fp = local_fp.clone();
    (
        UnitState {
            phase: UnitPhase::FindingLocal,
            local_fp,
            name,
            holds_lock: false,
            record: None,
            found: None,
        },
        UnitRequest::FindRecords(fp),
    )
}

/// The failure a failed request of `phase` is reported as.
pub open spec fn failure_of(phase: UnitPhase) -> FailureKind {
    match phase {
        UnitPhase::Searching => FailureKind::SearchFailure,
        UnitPhase::Resolving => FailureKind::ResolutionFailure,
        _ => FailureKind::ClientFailure,
    }
}

/// Whether the unit is over with `outcome`.
pub open spec fn finishes(r: (UnitState, UnitRequest), outcome: UnitOutcome) -> bool {
    r.0.phase == UnitPhase::Finished && r.1 == UnitRequest::Finish(outcome)
}

/// Advances a unit of work by what came of its last request. A local
/// torrent the client does not hold is skipped; the indexer is searched for
/// the local torrent's name and only its first result is resolved; a
/// result with the local fingerprint ends the unit before any further
/// client call, as does one the client already holds; otherwise the lock of
/// the local fingerprint is taken, and only while it is held are the local
/// torrent's trackers fetched and `decide_unit` decides. A failed request
/// ends the unit with the failure of its phase; an event that does not
/// answer the pending request ends it as a client failure.
pub fn unit_step(state: UnitState, event: UnitEvent, mode: TorrentMode, category: String) -> (r: (
    UnitState,
    UnitRequest,
))
    requires
        state.wf(),
    ensures
        r.0.wf(),
        r.0.local_fp == state.local_fp,
        r.0.name == state.name,
        r.0.holds_lock == (state.holds_lock || (state.phase == UnitPhase::Locking
            && event is Locked)),
        r.1 is FetchTrackers || r.1 is Act ==> r.0.holds_lock,
        event is Failed && state.phase != UnitPhase::Finished ==> finishes(
            r,
            UnitOutcome::Failed(failure_of(state.phase)),
        ),
        state.phase == UnitPhase::FindingLocal ==> match event {
            UnitEvent::Records(rs) => if rs.len() == 0 {
                finishes(r, UnitOutcome::Skipped(SkipReason::NotInClient))
            } else {
                &&& r.0.phase == UnitPhase::Searching
                &&& r.0.record == Some(rs[0])
                &&& r.1 matches UnitRequest::Search(q) && q@ == state.name@
            },
            UnitEvent::Failed => true,
            _ => finishes(r, UnitOutcome::Failed(FailureKind::ClientFailure)),
        },
        state.phase == UnitPhase::Searching ==> match event {
            UnitEvent::Hits(n) => if n == 0 {
                finishes(r, UnitOutcome::Skipped(SkipReason::NoResult))
            } else {
                r.0.phase == UnitPhase::Resolving && r.0.record == state.record && r.1
                    == UnitRequest::ResolveFirst
            },
            UnitEvent::Failed => true,
            _ => finishes(r, UnitOutcome::Failed(FailureKind::ClientFailure)),
        },
        state.phase == UnitPhase::Resolving ==> match event {
            UnitEvent::Resolved(d) => if d.fingerprint@ == state.local_fp@ {
                finishes(r, UnitOutcome::Skipped(SkipReason::SameRelease))
            } else {
                &&& r.0.phase == UnitPhase::FindingFound
                &&& r.0.record == state.record
                &&& r.0.found == Some(d)
                &&& r.1 matches UnitRequest::FindRecords(fp) && fp@ == d.fingerprint@
            },
            UnitEvent::Failed => true,
            _ => finishes(r, UnitOutcome::Failed(FailureKind::ClientFailure)),
        },
        state.phase == UnitPhase::FindingFound ==> match (event, state.found) {
            (UnitEvent::Records(rs), Some(f)) => if exists|i: int|
                0 <= i < rs.len() && (#[trigger] rs[i]).hash@ == f.fingerprint@ {
                finishes(r, UnitOutcome::Skipped(SkipReason::AlreadySeeding))
            } else {
                &&& r.0.phase == UnitPhase::Locking
                &&& r.0.record == state.record
                &&& r.0.found == state.found
                &&& r.1 matches UnitRequest::Lock(fp) && fp@ == state.local_fp@
            },
            (UnitEvent::Failed, _) => true,
            _ => finishes(r, UnitOutcome::Failed(FailureKind::ClientFailure)),
        },
        state.phase == UnitPhase::Locking ==> match event {
            UnitEvent::Locked => {
                &&& r.0.phase == UnitPhase::FetchingTrackers
                &&& r.0.record == state.record
                &&& r.0.found == state.found
                &&& r.1 matches UnitRequest::FetchTrackers(fp) && fp@ == state.local_fp@
            },
            UnitEvent::Failed => true,
            _ => finishes(r, UnitOutcome::Failed(FailureKind::ClientFailure)),
        },
        state.phase == UnitPhase::FetchingTrackers ==> match (event, state.record, state.found) {
            (UnitEvent::Trackers(t), Some(rec), Some(f)) => r.0.phase == UnitPhase::Finished
                && exists|d: Result<CrossSeedAction, FailureKind>|
                decided(mode, rec, Some(f), false, t.deep_view(), category@, d) && match d {
                    Ok(CrossSeedAction::Skip(reason)) => r.1 == UnitRequest::Finish(
                        UnitOutcome::Skipped(reason),
                    ),
                    Ok(a) => r.1 == UnitRequest::Act(a),
                    Err(k) => r.1 == UnitRequest::Finish(UnitOutcome::Failed(k)),
                },
            (UnitEvent::Failed, _, _) => true,
            _ => finishes(r, UnitOutcome::Failed(FailureKind::ClientFailure)),
        },
        state.phase == UnitPhase::Finished ==> finishes(
            r,
            UnitOutcome::Failed(FailureKind::ClientFailure),
        ),
{
    let UnitState { phase, local_fp, name, holds_lock, record, found } = state;
    match phase {
        UnitPhase::FindingLocal => match event {
            UnitEvent::Records(mut rs) => {
                if rs.len() == 0 {
                    finished(local_fp, name, holds_lock, UnitOutcome::Skipped(SkipReason::NotInClient))
                } else {
                    let rec = rs.remove(0);
                    let query = name.clone();
                    (
                        UnitState {
                            phase: UnitPhase::Searching,
                            local_fp,
                            name,
                            holds_lock,
                            record: Some(rec),
                            found,
                        },
                        UnitRequest::Search(query),
                    )
                }
            },
            _ => finished(local_fp, name, holds_lock, UnitOutcome::Failed(FailureKind::ClientFailure)),
        },
        UnitPhase::Searching => match event {
            UnitEvent::Hits(n) => {
                if n == 0 {
                    finished(local_fp, name, holds_lock, UnitOutcome::Skipped(SkipReason::NoResult))
                } else {
                    (
                        UnitState { phase: UnitPhase::Resolving, local_fp, name, holds_lock, record, found },
                        UnitRequest::ResolveFirst,
                    )
                }
            },
            UnitEvent::Failed => finished(
                local_fp,
                name,
                holds_lock,
                UnitOutcome::Failed(FailureKind::SearchFailure),
            ),
            _ => finished(local_fp, name, holds_lock, UnitOutcome::Failed(FailureKind::ClientFailure)),
        },
        UnitPhase::Resolving => match event {
            UnitEvent::Resolved(d) => {
                if d.fingerprint == local_fp {
                    finished(local_fp, name, holds_lock, UnitOutcome::Skipped(SkipReason::SameRelease))
                } else {
                    let fp = d.fingerprint.clone();
                    (
                        UnitState {
                            phase: UnitPhase::FindingFound,
                            local_fp,
                            name,
                            holds_lock,
                            record,
                            found: Some(d),
                        },
                        UnitRequest::FindRecords(fp),
                    )
                }
            },
            UnitEvent::Failed => finished(
                local_fp,
                name,
                holds_lock,
                UnitOutcome::Failed(FailureKind::ResolutionFailure),
            ),
            _ => finished(local_fp, name, holds_lock, UnitOutcome::Failed(FailureKind::ClientFailure)),
        },
        UnitPhase::FindingFound => match (event, found) {
            (UnitEvent::Records(rs), Some(f)) => {
                if holds_fingerprint(&rs, &f.fingerprint) {
                    finished(local_fp, name, holds_lock, UnitOutcome::Skipped(SkipReason::AlreadySeeding))
                } else {
                    let fp = local_fp.clone();
                    (
                        UnitState {
                            phase: UnitPhase::Locking,
                            local_fp,
                            name,
                            holds_lock,
                            record,
                            found: Some(f),
                        },
                        UnitRequest::Lock(fp),
                    )
                }
            },
            _ => finished(local_fp, name, holds_lock, UnitOutcome::Failed(FailureKind::ClientFailure)),
        },
        UnitPhase::Locking => match event {
            UnitEvent::Locked => {
                let fp = local_fp.clone();
                (
                    UnitState {
                        phase: UnitPhase::FetchingTrackers,
                        local_fp,
                        name,
                        holds_lock: true,
                        record,
                        found,
                    },
                    UnitRequest::FetchTrackers(fp),
                )
            },
            _ => finished(local_fp, name, holds_lock, UnitOutcome::Failed(FailureKind::ClientFailure)),
        },
        UnitPhase::FetchingTrackers => match (event, record, found) {
            (UnitEvent::Trackers(t), Some(rec), Some(f)) => {
                let d = decide_unit(mode, &rec, Some(&f), false, &t, category);
                let ghost dg = d;
                let req = match d {
                    Ok(CrossSeedAction::Skip(reason)) => UnitRequest::Finish(
                        UnitOutcome::Skipped(reason),
                    ),
                    Ok(a) => UnitRequest::Act(a),
                    Err(k) => UnitRequest::Finish(UnitOutcome::Failed(k)),
                };
                assert(decided(mode, rec, Some(f), false, t.deep_view(), category@, dg));
                (
                    UnitState {
                        phase: UnitPhase::Finished,
                        local_fp,
                        name,
                        holds_lock,
                        record: None,
                        found: None,
                    },
                    req,
                )
            },
            _ => finished(local_fp, name, holds_lock, UnitOutcome::Failed(FailureKind::ClientFailure)),
        },
        UnitPhase::Finished => finished(
            local_fp,
            name,
            holds_lock,
            UnitOutcome::Failed(FailureKind::ClientFailure),
        ),
    }
}

/// A finished unit with `outcome`.
fn finished(local_fp: String, name: String, holds_lock: bool, outcome: UnitOutcome) -> (r: (
    UnitState,
    UnitRequest,
))
    ensures
        finishes(r, outcome),
        r.0.local_fp == local_fp,
        r.0.name == name,
        r.0.holds_lock == holds_lock,
{
    (
        UnitState { phase: UnitPhase::Finished, local_fp, name, holds_lock, record: None, found: None },
        UnitRequest::Finish(outcome),
    )
}

} // verus!
