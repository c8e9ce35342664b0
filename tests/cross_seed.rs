use cross_seed::codec::{Descriptor, TorrentFile};
use cross_seed::config::TorrentMode;
use cross_seed::tracker::tracker_additions;
use cross_seed::cross_seed::{
    decide_unit, holds_fingerprint, judge_candidate, plan_action, replace_step, CrossSeedAction,
    FailureKind, MatchVerdict, ReplaceStage, SkipReason, TorrentInfo, TorrentState,
};

fn urls(v: &[&str]) -> Vec<String> {
    v.iter().map(|s| s.to_string()).collect()
}

fn bstr(s: &str) -> String {
    format!("{}:{}", s.len(), s)
}

fn torrent_bytes(name: &str, trackers: &[&str]) -> Vec<u8> {
    let list: String = trackers.iter().map(|t| bstr(t)).collect();
    format!(
        "d8:announce{}13:announce-listll{}ee4:infod6:lengthi3e4:name{}12:piece lengthi16384e6:pieces20:",
        bstr(trackers[0]),
        list,
        bstr(name)
    )
    .into_bytes()
    .into_iter()
    .chain([0xFFu8; 20])
    .chain(*b"ee")
    .collect()
}

fn record(hash: &str, state: TorrentState) -> TorrentInfo {
    TorrentInfo {
        hash: hash.to_string(),
        state,
        category: "movies".to_string(),
        tags: urls(&["keep"]),
    }
}

fn found(hash: &str, trackers: &[&str], private: bool) -> Descriptor {
    Descriptor {
        fingerprint: hash.to_string(),
        name: "release".to_string(),
        announce_groups: Some(vec![urls(trackers)]),
        private,
    }
}

#[test]
fn same_fingerprint_is_rejected() {
    let f = found("h1", &["http://b/announce"], false);
    for holds in [false, true] {
        let v = judge_candidate(&"h1".to_string(), &f, holds, &Vec::new());
        assert!(matches!(v, MatchVerdict::Reject(SkipReason::SameRelease)));
    }
}

#[test]
fn judge_rejects_known_and_covered() {
    let f = found("h2", &["http://a/announce"], false);
    let v = judge_candidate(&"h1".to_string(), &f, true, &Vec::new());
    assert!(matches!(v, MatchVerdict::Reject(SkipReason::AlreadySeeding)));
    let v = judge_candidate(&"h1".to_string(), &f, false, &urls(&["http://a/announce"]));
    assert!(matches!(v, MatchVerdict::Reject(SkipReason::AlreadyTracked)));
    let none = Descriptor { announce_groups: None, ..found("h2", &[], false) };
    let v = judge_candidate(&"h1".to_string(), &none, false, &Vec::new());
    assert!(matches!(v, MatchVerdict::Reject(SkipReason::NoAnnounceList)));
    let bad = found("h2", &["http://x/%C3"], false);
    let v = judge_candidate(&"h1".to_string(), &bad, false, &Vec::new());
    assert!(matches!(v, MatchVerdict::Undecodable));
}

#[test]
fn judge_finds_opportunity_with_decoded_trackers() {
    let f = found("h2", &["http%3A%2F%2Fb%2Fannounce", "** [DHT] **"], false);
    match judge_candidate(&"h1".to_string(), &f, false, &urls(&["http://a/announce"])) {
        MatchVerdict::Opportunity(n) => assert_eq!(n, urls(&["http://b/announce"])),
        other => panic!("unexpected verdict {:?}", other),
    }
}

#[test]
fn not_seeding_is_skipped_in_every_mode() {
    let states = [
        TorrentState::Downloading,
        TorrentState::QueuedDownloading,
        TorrentState::Error,
        TorrentState::PausedUploading,
        TorrentState::StalledDownloading,
    ];
    let modes = [TorrentMode::InjectTrackers, TorrentMode::InjectFile, TorrentMode::Filesystem];
    for state in states {
        for mode in modes {
            for private in [false, true] {
                let a = plan_action(
                    mode,
                    &record("h1", state),
                    &"h2".to_string(),
                    private,
                    &urls(&["a"]),
                    &urls(&["b"]),
                    "cat".to_string(),
                );
                assert!(matches!(a, CrossSeedAction::Skip(SkipReason::NotFinished)));
            }
        }
    }
}

#[test]
fn public_candidate_gets_trackers_added() {
    let f = found("h2", &["http://a/announce", "http://b/announce"], false);
    let r = decide_unit(
        TorrentMode::InjectTrackers,
        &record("h1", TorrentState::Uploading),
        Some(&f),
        false,
        &urls(&["http://a/announce"]),
        "cross-seed-rs".to_string(),
    );
    match r {
        Ok(CrossSeedAction::AddTrackers { fingerprint, trackers }) => {
            assert_eq!(fingerprint, "h1");
            assert_eq!(trackers, urls(&["http://a/announce", "http://b/announce"]));
            assert_eq!(
                tracker_additions(&urls(&["http://a/announce"]), &trackers),
                urls(&["http://b/announce"])
            );
        }
        other => panic!("unexpected action {:?}", other),
    }
}

#[test]
fn private_candidate_replaces_torrent() {
    let f = found("h2", &["http://a/announce", "http://c/announce"], true);
    let r = decide_unit(
        TorrentMode::InjectTrackers,
        &record("h1", TorrentState::QueuedUploading),
        Some(&f),
        false,
        &urls(&["http://a/announce"]),
        "cross-seed-rs".to_string(),
    );
    let trackers = match r {
        Ok(CrossSeedAction::Replace { remove, trackers, category, tags }) => {
            assert_eq!(remove, "h1");
            assert_eq!(category, "cross-seed-rs");
            assert_eq!(tags, urls(&["keep"]));
            assert_eq!(trackers, urls(&["http://a/announce", "http://c/announce"]));
            trackers
        }
        other => panic!("unexpected action {:?}", other),
    };
    let local = TorrentFile::decode(&torrent_bytes("hello", &["http://a/announce"])).unwrap();
    assert!(!local.meta.private);
    let replaced = local.with_trackers_private(trackers);
    assert!(replaced.meta.private);
    let bytes = replaced.encode().unwrap();
    let back = TorrentFile::decode(&bytes).unwrap();
    assert!(back.meta.private);
    assert_eq!(
        back.meta.announce_groups,
        Some(vec![urls(&["http://a/announce", "http://c/announce"])])
    );
    assert_eq!(back.meta.fingerprint, replaced.meta.fingerprint);
    assert_ne!(back.meta.fingerprint, local.meta.fingerprint);
}

#[test]
fn candidate_already_in_client_is_skipped() {
    let f = found("h2", &["http://c/announce"], true);
    let clients = vec![record("h1", TorrentState::Uploading), record("h2", TorrentState::Uploading)];
    let holds = holds_fingerprint(&clients, &f.fingerprint);
    assert!(holds);
    let r = decide_unit(
        TorrentMode::InjectTrackers,
        &clients[0],
        Some(&f),
        holds,
        &urls(&["http://a/announce"]),
        "c".to_string(),
    );
    assert!(matches!(r, Ok(CrossSeedAction::Skip(SkipReason::AlreadySeeding))));
    assert!(!holds_fingerprint(&clients, &"h3".to_string()));
}

#[test]
fn file_and_filesystem_modes() {
    let f = found("h2", &["http://c/announce"], true);
    let rec = record("h1", TorrentState::Uploading);
    let r = decide_unit(TorrentMode::InjectFile, &rec, Some(&f), false, &Vec::new(), "c".to_string());
    assert!(matches!(r, Ok(CrossSeedAction::UploadSecondary { ref fingerprint, ref category }) if category == "c" && fingerprint == "h2"));
    let r = decide_unit(TorrentMode::Filesystem, &rec, Some(&f), false, &Vec::new(), "c".to_string());
    assert!(matches!(r, Ok(CrossSeedAction::Materialize { ref fingerprint }) if fingerprint == "h2"));
    let r = decide_unit(TorrentMode::Filesystem, &rec, None, false, &Vec::new(), "c".to_string());
    assert!(matches!(r, Ok(CrossSeedAction::Skip(SkipReason::NoResult))));
    let bad = found("h2", &["%E2%82"], false);
    let r = decide_unit(TorrentMode::InjectFile, &rec, Some(&bad), false, &Vec::new(), "c".to_string());
    assert!(matches!(r, Err(FailureKind::ResolutionFailure)));
}

#[test]
fn replacement_stages() {
    assert_eq!(replace_step(ReplaceStage::Encoding, true), ReplaceStage::Removing);
    assert_eq!(replace_step(ReplaceStage::Encoding, false), ReplaceStage::Failed(FailureKind::EncodeFailure));
    assert_eq!(replace_step(ReplaceStage::Removing, true), ReplaceStage::Adding);
    assert_eq!(replace_step(ReplaceStage::Removing, false), ReplaceStage::Failed(FailureKind::ClientFailure));
    assert_eq!(replace_step(ReplaceStage::Adding, true), ReplaceStage::Done);
    assert_eq!(replace_step(ReplaceStage::Adding, false), ReplaceStage::Failed(FailureKind::PartialReplacement));
    assert_eq!(replace_step(ReplaceStage::Done, false), ReplaceStage::Done);
}

#[test]
fn decode_encode_round_trip() {
    let bytes = torrent_bytes("round", &["http://a/announce", "http://b/announce"]);
    let d = TorrentFile::decode(&bytes).unwrap();
    let again = TorrentFile::decode(&d.encode().unwrap()).unwrap();
    assert_eq!(again.meta.fingerprint, d.meta.fingerprint);
    assert_eq!(again.meta.name, "round");
    assert_eq!(again.meta.announce_groups, d.meta.announce_groups);
    assert_eq!(again.meta.private, d.meta.private);
    assert_eq!(d.meta.fingerprint.len(), 40);
}

#[test]
fn decode_rejects_garbage() {
    assert!(TorrentFile::decode(b"not a torrent").is_err());
}
