//! The cross-seed decision: whether a found release is a usable cross-seed
//! of a local torrent, and which download-client mutation starts seeding it.
use vstd::prelude::*;
use crate::codec::Descriptor;
use crate::config::TorrentMode;
use crate::tracker::{
    additions,
    is_pseudo,
    lemma_additions_members,
    covers,
    merge,
    merged,
    normalize,
    normalized,
};

verus! {

/// The download client's lifecycle state of a torrent.
#[derive(Clone, Copy, Debug, PartialEq, Eq, Structural)]
pub enum TorrentState {
    Error,
    MissingFiles,
    Uploading,
    PausedUploading,
    QueuedUploading,
    StalledUploading,
    CheckingUploading,
    ForcedUploading,
    Allocating,
    Downloading,
    MetaDownloading,
    PausedDownloading,
    QueuedDownloading,
    StalledDownloading,
    CheckingDownloading,
    ForcedDownloading,
    CheckingResumeData,
    Moving,
    Unknown,
}

/// Finished downloading and uploading, or queued to upload.
pub open spec fn is_seeding(s: TorrentState) -> bool {
    s == TorrentState::Uploading || s == TorrentState::QueuedUploading
}

impl TorrentState {
    /// Returns whether a torrent in this state may receive a cross-seed.
    pub fn is_seeding(&self) -> (r: bool)
        ensures
            r == is_seeding(*self),
    {
        match self {
            TorrentState::Uploading | TorrentState::QueuedUploading => true,
            _ => false,
        }
    }
}

/// The download client's record of a torrent it manages.
#[derive(Clone, Debug)]
pub struct TorrentInfo {
    /// The fingerprint (info hash) the client keys the torrent by.
    pub hash: String,
    pub state: TorrentState,
    pub category: String,
    pub tags: Vec<String>,
}

/// Returns whether one of the client's records has fingerprint `fp`.
pub fn holds_fingerprint(records: &Vec<TorrentInfo>, fp: &String) -> (r: bool)
    ensures
        r == exists|i: int| 0 <= i < records.len() && (#[trigger] records[i]).hash@ == fp@,
{
    let mut i: usize = 0;
    while i < records.len()
        invariant
            i <= records.len(),
            forall|k: int| 0 <= k < i ==> (#[trigger] records[k]).hash@ != fp@,
        decreases records.len() - i,
    {
        if records[i].hash == *fp {
            return true;
        }
        i += 1;
    }
    false
}

/// Why a pair of local torrent and indexer leads to no mutation.
#[derive(Clone, Copy, Debug, PartialEq, Eq, Structural)]
pub enum SkipReason {
    /// The client does not hold the local torrent.
    NotInClient,
    /// The indexer returned nothing.
    NoResult,
    /// The found release is the local torrent itself.
    SameRelease,
    /// The client already holds a torrent with the found fingerprint.
    AlreadySeeding,
    /// The found release has no announce list.
    NoAnnounceList,
    /// The client already announces to every tracker of the found release.
    AlreadyTracked,
    /// The local torrent is not done downloading.
    NotFinished,
}

/// Outcome of matching a found release against a local torrent.
#[derive(Debug)]
pub enum MatchVerdict {
    Reject(SkipReason),
    /// An announce URL of the found release is not valid percent-encoded
    /// UTF-8.
    Undecodable,
    /// A genuine cross-seed, with the found release's normalized trackers.
    Opportunity(Vec<String>),
}

/// The verdict on a found release, given the local fingerprint, whether the
/// client already holds the found fingerprint, and the trackers the client
/// has configured for the local torrent. `Ok(n)` is an opportunity with
/// normalized trackers `n`.
pub open spec fn verdict(
    local_fp: Seq<char>,
    found: Descriptor,
    client_holds_found: bool,
    client_trackers: Seq<Seq<char>>,
) -> Option<Result<Seq<Seq<char>>, SkipReason>> {
    if found.fingerprint@ == local_fp {
        Some(Err(SkipReason::SameRelease))
    } else if client_holds_found {
        Some(Err(SkipReason::AlreadySeeding))
    } else {
        match found.groups() {
            None => Some(Err(SkipReason::NoAnnounceList)),
            Some(g) => match normalized(g) {
                None => None,
                Some(n) => if (forall|x: Seq<char>|
                    #[trigger] n.contains(x) ==> client_trackers.contains(x)) {
                    Some(Err(SkipReason::AlreadyTracked))
                } else {
                    Some(Ok(n))
                },
            },
        }
    }
}

/// Whether `v` is the verdict that `verdict` describes.
pub open spec fn verdict_is(v: MatchVerdict, want: Option<Result<Seq<Seq<char>>, SkipReason>>) -> bool {
    match want {
        None => v matches MatchVerdict::Undecodable,
        Some(Err(reason)) => v == MatchVerdict::Reject(reason),
        Some(Ok(n)) => v matches MatchVerdict::Opportunity(t) && t.deep_view() == n,
    }
}

/// Decides whether `found` is a cross-seed opportunity for the local torrent
/// with fingerprint `local_fp`. It is not when it is the same release, when
/// the client already holds its fingerprint, when it has no announce list,
/// or when every one of its normalized trackers is already configured on the
/// local torrent.
pub fn judge_candidate(
    local_fp: &String,
    found: &Descriptor,
    client_holds_found: bool,
    client_trackers: &Vec<String>,
) -> (r: MatchVerdict)
    ensures
        verdict_is(r, verdict(local_fp@, *found, client_holds_found, client_trackers.deep_view())),
        found.fingerprint@ == local_fp@ ==> r == MatchVerdict::Reject(SkipReason::SameRelease),
{
    if found.fingerprint == *local_fp {
        return MatchVerdict::Reject(SkipReason::SameRelease);
    }
    if client_holds_found {
        return MatchVerdict::Reject(SkipReason::AlreadySeeding);
    }
    match &found.announce_groups {
        None => MatchVerdict::Reject(SkipReason::NoAnnounceList),
        Some(groups) => match normalize(groups) {
            None => MatchVerdict::Undecodable,
            Some(n) => {
                if covers(client_trackers, &n) {
                    MatchVerdict::Reject(SkipReason::AlreadyTracked)
                } else {
                    MatchVerdict::Opportunity(n)
                }
            },
        },
    }
}

/// A mutation of the download client, or none.
#[derive(Debug)]
pub enum CrossSeedAction {
    Skip(SkipReason),
    /// Add `trackers` to the client's torrent `fingerprint`; the client
    /// ignores those it already has.
    AddTrackers { fingerprint: String, trackers: Vec<String> },
    /// Remove the client's torrent `remove` (keeping its data), then add the
    /// local torrent re-encoded with announce list `trackers` and marked
    /// private, under `category` and `tags`.
    Replace { remove: String, trackers: Vec<String>, category: String, tags: Vec<String> },
    /// Add the found torrent, the one with fingerprint `fingerprint`, as a
    /// second torrent under `category`.
    UploadSecondary { fingerprint: String, category: String },
    /// Write the found torrent, the one with fingerprint `fingerprint`, to
    /// the output directory.
    Materialize { fingerprint: String },
}

/// The mutation for an opportunity, by the torrent's state, the configured
/// mode and the found release's privacy.
pub open spec fn action_is(
    a: CrossSeedAction,
    mode: TorrentMode,
    record: TorrentInfo,
    found_fp: Seq<char>,
    found_private: bool,
    client_trackers: Seq<Seq<char>>,
    found_trackers: Seq<Seq<char>>,
    category: Seq<char>,
) -> bool {
    if !is_seeding(record.state) {
        a == CrossSeedAction::Skip(SkipReason::NotFinished)
    } else {
        match mode {
            TorrentMode::InjectTrackers => if found_private {
                a matches CrossSeedAction::Replace { remove, trackers, category: c, tags } && remove@
                    == record.hash@ && trackers.deep_view() == merged(
                    client_trackers,
                    found_trackers,
                ) && c@ == category && tags.deep_view() == record.tags.deep_view()
            } else {
                a matches CrossSeedAction::AddTrackers { fingerprint, trackers } && fingerprint@
                    == record.hash@ && trackers.deep_view() == found_trackers
            },
            TorrentMode::InjectFile => a matches CrossSeedAction::UploadSecondary {
                fingerprint,
                category: c,
            } && fingerprint@ == found_fp && c@ == category,
            TorrentMode::Filesystem => a matches CrossSeedAction::Materialize { fingerprint }
                && fingerprint@ == found_fp,
        }
    }
}

/// Maps the configured mode, the client's record of the local torrent and
/// the found release's privacy to a mutation. A torrent that is not seeding
/// is skipped. In tracker-injection mode a private release replaces the
/// client's torrent by one announcing to the merged tracker list; a public
/// one has its normalized trackers added to the client's torrent. In
/// file-injection mode the found torrent is added as a second torrent.
pub fn plan_action(
    mode: TorrentMode,
    record: &TorrentInfo,
    found_fp: &String,
    found_private: bool,
    client_trackers: &Vec<String>,
    found_trackers: &Vec<String>,
    category: String,
) -> (r: CrossSeedAction)
    ensures
        action_is(
            r,
            mode,
            *record,
            found_fp@,
            found_private,
            client_trackers.deep_view(),
            found_trackers.deep_view(),
            category@,
        ),
        !is_seeding(record.state) ==> r == CrossSeedAction::Skip(SkipReason::NotFinished),
{
    if !record.state.is_seeding() {
        return CrossSeedAction::Skip(SkipReason::NotFinished);
    }
    match mode {
        TorrentMode::InjectTrackers => {
            if found_private {
                CrossSeedAction::Replace {
                    remove: record.hash.clone(),
                    trackers: merge(client_trackers, found_trackers),
                    category,
                    tags: crate::codec::clone_urls(&record.tags),
                }
            } else {
                CrossSeedAction::AddTrackers {
                    fingerprint: record.hash.clone(),
                    trackers: crate::codec::clone_urls(found_trackers),
                }
            }
        },
        TorrentMode::InjectFile => CrossSeedAction::UploadSecondary {
            fingerprint: found_fp.clone(),
            category,
        },
        TorrentMode::Filesystem => CrossSeedAction::Materialize { fingerprint: found_fp.clone() },
    }
}

/// The kinds of failure of one pair of local torrent and indexer.
#[derive(Clone, Copy, Debug, PartialEq, Eq, Structural)]
pub enum FailureKind {
    /// The indexer was unreachable or answered with a malformed response.
    SearchFailure,
    /// The found release could not be resolved or decoded.
    ResolutionFailure,
    /// The download client rejected a call or was unreachable.
    ClientFailure,
    /// The re-encoded torrent could not be produced.
    EncodeFailure,
    /// The client's torrent was removed but its replacement was not added.
    PartialReplacement,
}

/// Whether `r` is the decision for one local torrent and one indexer: no
/// result is a skip, a rejected release is a skip with the rejection's
/// reason, undecodable trackers a resolution failure, and an opportunity
/// the mutation that `action_is` gives.
pub open spec fn decided(
    mode: TorrentMode,
    record: TorrentInfo,
    found: Option<Descriptor>,
    client_holds_found: bool,
    client_trackers: Seq<Seq<char>>,
    category: Seq<char>,
    r: Result<CrossSeedAction, FailureKind>,
) -> bool {
    match found {
        None => r == Ok::<CrossSeedAction, FailureKind>(CrossSeedAction::Skip(SkipReason::NoResult)),
        Some(f) => match verdict(record.hash@, f, client_holds_found, client_trackers) {
            None => r == Err::<CrossSeedAction, FailureKind>(FailureKind::ResolutionFailure),
            Some(Err(reason)) => r == Ok::<CrossSeedAction, FailureKind>(
                CrossSeedAction::Skip(reason),
            ),
            Some(Ok(n)) => r matches Ok(a) && action_is(
                a,
                mode,
                record,
                f.fingerprint@,
                f.private,
                client_trackers,
                n,
                category,
            ),
        },
    }
}

/// Decides, for one local torrent and one indexer, the mutation to perform:
/// `found` is the resolved first search result, if any; `client_holds_found`
/// whether the client holds its fingerprint; `client_trackers` the trackers
/// configured on the client's `record` of the local torrent.
pub fn decide_unit(
    mode: TorrentMode,
    record: &TorrentInfo,
    found: Option<&Descriptor>,
    client_holds_found: bool,
    client_trackers: &Vec<String>,
    category: String,
) -> (r: Result<CrossSeedAction, FailureKind>)
    ensures
        decided(
            mode,
            *record,
            match found {
                Some(f) => Some(*f),
                None => None,
            },
            client_holds_found,
            client_trackers.deep_view(),
            category@,
            r,
        ),
{
    match found {
        None => Ok(CrossSeedAction::Skip(SkipReason::NoResult)),
        Some(f) => match judge_candidate(&record.hash, f, client_holds_found, client_trackers) {
            MatchVerdict::Reject(reason) => Ok(CrossSeedAction::Skip(reason)),
            MatchVerdict::Undecodable => Err(FailureKind::ResolutionFailure),
            MatchVerdict::Opportunity(n) => Ok(
                plan_action(mode, record, &f.fingerprint, f.private, client_trackers, &n, category),
            ),
        },
    }
}

/// Candidate matching never offers a release as a cross-seed of itself:
/// whatever the client state, a found release with the local torrent's
/// fingerprint is rejected as the same release.
pub proof fn lemma_same_release_rejected(
    local_fp: Seq<char>,
    found: Descriptor,
    client_holds_found: bool,
    client_trackers: Seq<Seq<char>>,
)
    requires
        found.fingerprint@ == local_fp,
    ensures
        verdict(local_fp, found, client_holds_found, client_trackers) == Some(
            Err::<Seq<Seq<char>>, SkipReason>(SkipReason::SameRelease),
        ),
{
}

/// A torrent that is not seeding is skipped, whatever the mode and the
/// found release's privacy.
pub proof fn lemma_not_seeding_skipped(
    a: CrossSeedAction,
    mode: TorrentMode,
    record: TorrentInfo,
    found_fp: Seq<char>,
    found_private: bool,
    client_trackers: Seq<Seq<char>>,
    found_trackers: Seq<Seq<char>>,
    category: Seq<char>,
)
    requires
        !is_seeding(record.state),
        action_is(a, mode, record, found_fp, found_private, client_trackers, found_trackers, category),
    ensures
        a == CrossSeedAction::Skip(SkipReason::NotFinished),
{
}

/// Tracker injection of a public release targets the client's torrent,
/// hands it the release's normalized trackers, removes nothing, and what the
/// client gains are exactly those trackers it lacked.
pub proof fn lemma_public_injection_adds_missing(
    a: CrossSeedAction,
    record: TorrentInfo,
    found_fp: Seq<char>,
    client_trackers: Seq<Seq<char>>,
    found_trackers: Seq<Seq<char>>,
    category: Seq<char>,
)
    requires
        is_seeding(record.state),
        action_is(
            a,
            TorrentMode::InjectTrackers,
            record,
            found_fp,
            false,
            client_trackers,
            found_trackers,
            category,
        ),
    ensures
        a matches CrossSeedAction::AddTrackers { fingerprint, trackers } && fingerprint@
            == record.hash@ && trackers.deep_view() == found_trackers,
        forall|x: Seq<char>|
            #[trigger] additions(client_trackers, found_trackers).contains(x) <==> (!is_pseudo(x)
                && found_trackers.contains(x) && !client_trackers.contains(x)),
{
    lemma_additions_members(client_trackers, found_trackers);
}

/// Progress of replacing the client's torrent by its re-encoded copy. The
/// new bytes are produced before anything is removed, so that a failed
/// encode leaves the client untouched.
#[derive(Clone, Copy, Debug, PartialEq, Eq, Structural)]
pub enum ReplaceStage {
    Encoding,
    Removing,
    Adding,
    Done,
    Failed(FailureKind),
}

/// The stage after the current stage's step succeeded (`ok`) or failed. A
/// failed add after a successful remove is reported as a partial
/// replacement.
pub fn replace_step(stage: ReplaceStage, ok: bool) -> (r: ReplaceStage)
    ensures
        r == match stage {
            ReplaceStage::Encoding => if ok {
                ReplaceStage::Removing
            } else {
                ReplaceStage::Failed(FailureKind::EncodeFailure)
            },
            ReplaceStage::Removing => if ok {
                ReplaceStage::Adding
            } else {
                ReplaceStage::Failed(FailureKind::ClientFailure)
            },
            ReplaceStage::Adding => if ok {
                ReplaceStage::Done
            } else {
                ReplaceStage::Failed(FailureKind::PartialReplacement)
            },
            _ => stage,
        },
{
    match stage {
        ReplaceStage::Encoding => if ok {
            ReplaceStage::Removing
        } else {
            ReplaceStage::Failed(FailureKind::EncodeFailure)
        },
        ReplaceStage::Removing => if ok {
            ReplaceStage::Adding
        } else {
            ReplaceStage::Failed(FailureKind::ClientFailure)
        },
        ReplaceStage::Adding => if ok {
            ReplaceStage::Done
        } else {
            ReplaceStage::Failed(FailureKind::PartialReplacement)
        },
        _ => stage,
    }
}

} // verus!
