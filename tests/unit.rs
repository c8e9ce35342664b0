use cross_seed::codec::Descriptor;
use cross_seed::config::TorrentMode;
use cross_seed::coordinator::{ActionKind, UnitOutcome};
use cross_seed::cross_seed::{CrossSeedAction, FailureKind, SkipReason, TorrentInfo, TorrentState};
use cross_seed::unit::{start_unit, unit_step, UnitEvent, UnitPhase, UnitRequest, UnitState};

fn record(hash: &str) -> TorrentInfo {
    TorrentInfo { hash: hash.into(), state: TorrentState::Uploading, category: "c".into(), tags: Vec::new() }
}

fn found(hash: &str, trackers: &[&str], private: bool) -> Descriptor {
    Descriptor {
        fingerprint: hash.into(),
        name: "x".into(),
        announce_groups: Some(vec![trackers.iter().map(|s| s.to_string()).collect()]),
        private,
    }
}

fn step(state: UnitState, event: UnitEvent) -> (UnitState, UnitRequest) {
    unit_step(state, event, TorrentMode::InjectTrackers, "cat".into())
}

#[test]
fn unit_runs_to_tracker_injection() {
    let (s, r) = start_unit("h1".into(), "Some.Release".into());
    assert!(matches!(r, UnitRequest::FindRecords(ref fp) if fp == "h1"));
    let (s, r) = step(s, UnitEvent::Records(vec![record("h1")]));
    assert!(matches!(r, UnitRequest::Search(ref q) if q == "Some.Release"));
    let (s, r) = step(s, UnitEvent::Hits(3));
    assert!(matches!(r, UnitRequest::ResolveFirst));
    let (s, r) = step(s, UnitEvent::Resolved(found("h2", &["http://a/announce", "http://b/announce"], false)));
    assert!(matches!(r, UnitRequest::FindRecords(ref fp) if fp == "h2"));
    let (s, r) = step(s, UnitEvent::Records(Vec::new()));
    assert!(matches!(r, UnitRequest::Lock(ref fp) if fp == "h1"));
    assert!(!s.holds_lock);
    let (s, r) = step(s, UnitEvent::Locked);
    assert!(matches!(r, UnitRequest::FetchTrackers(ref fp) if fp == "h1"));
    assert!(s.holds_lock);
    let (s, r) = step(s, UnitEvent::Trackers(vec!["http://a/announce".into()]));
    assert_eq!(s.phase, UnitPhase::Finished);
    match r {
        UnitRequest::Act(CrossSeedAction::AddTrackers { fingerprint, trackers }) => {
            assert_eq!(fingerprint, "h1");
            assert_eq!(trackers, vec!["http://a/announce".to_string(), "http://b/announce".to_string()]);
        }
        other => panic!("unexpected request {:?}", other),
    }
}

#[test]
fn unit_stops_early() {
    let (s, _) = start_unit("h1".into(), "Some.Release".into());
    let (_, r) = step(s, UnitEvent::Records(Vec::new()));
    assert!(matches!(r, UnitRequest::Finish(UnitOutcome::Skipped(SkipReason::NotInClient))));

    let (s, _) = start_unit("h1".into(), "Some.Release".into());
    let (_, r) = step(s, UnitEvent::Failed);
    assert!(matches!(r, UnitRequest::Finish(UnitOutcome::Failed(FailureKind::ClientFailure))));

    let (s, _) = start_unit("h1".into(), "Some.Release".into());
    let (s, _) = step(s, UnitEvent::Records(vec![record("h1")]));
    let (_, r) = step(s, UnitEvent::Hits(0));
    assert!(matches!(r, UnitRequest::Finish(UnitOutcome::Skipped(SkipReason::NoResult))));

    let (s, _) = start_unit("h1".into(), "Some.Release".into());
    let (s, _) = step(s, UnitEvent::Records(vec![record("h1")]));
    let (_, r) = step(s, UnitEvent::Failed);
    assert!(matches!(r, UnitRequest::Finish(UnitOutcome::Failed(FailureKind::SearchFailure))));

    let (s, _) = start_unit("h1".into(), "Some.Release".into());
    let (s, _) = step(s, UnitEvent::Records(vec![record("h1")]));
    let (s, _) = step(s, UnitEvent::Hits(1));
    let (_, r) = step(s, UnitEvent::Resolved(found("h1", &["http://b/announce"], false)));
    assert!(matches!(r, UnitRequest::Finish(UnitOutcome::Skipped(SkipReason::SameRelease))));

    let (s, _) = start_unit("h1".into(), "Some.Release".into());
    let (s, _) = step(s, UnitEvent::Records(vec![record("h1")]));
    let (s, _) = step(s, UnitEvent::Hits(1));
    let (s, _) = step(s, UnitEvent::Resolved(found("h2", &["http://b/announce"], true)));
    let (s, r) = step(s, UnitEvent::Records(vec![record("h2")]));
    assert!(matches!(r, UnitRequest::Finish(UnitOutcome::Skipped(SkipReason::AlreadySeeding))));
    let (_, r) = step(s, UnitEvent::Hits(1));
    assert!(matches!(r, UnitRequest::Finish(UnitOutcome::Failed(FailureKind::ClientFailure))));
}

#[test]
fn unit_private_release_replaces() {
    let (s, _) = start_unit("h1".into(), "Some.Release".into());
    let (s, _) = step(s, UnitEvent::Records(vec![record("h1")]));
    let (s, _) = step(s, UnitEvent::Hits(1));
    let (s, _) = step(s, UnitEvent::Resolved(found("h2", &["http://a/announce", "http://c/announce"], true)));
    let (s, _) = step(s, UnitEvent::Records(Vec::new()));
    let (s, _) = step(s, UnitEvent::Locked);
    let (s, r) = step(s, UnitEvent::Trackers(vec!["http://a/announce".into(), "** [DHT] **".into()]));
    match r {
        UnitRequest::Act(CrossSeedAction::Replace { remove, trackers, category, .. }) => {
            assert_eq!(remove, "h1");
            assert_eq!(category, "cat");
            assert_eq!(trackers, vec!["http://a/announce".to_string(), "http://c/announce".to_string()]);
        }
        other => panic!("unexpected request {:?}", other),
    }
    assert!(s.holds_lock);
    assert_eq!(
        cross_seed::coordinator::outcome_of(&CrossSeedAction::UploadSecondary { fingerprint: "h2".into(), category: "c".into() }),
        UnitOutcome::Acted(ActionKind::UploadSecondary)
    );
}
