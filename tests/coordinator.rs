use cross_seed::config::{default_bool_true, Config, Indexer, LogLevel, RunMode, TorrentMode};
use cross_seed::coordinator::{
    outcome_of, read_torrents, work_units, ActionKind, ListedEntry, MutationLocks, RunReport,
    UnitOutcome,
};
use cross_seed::cross_seed::{CrossSeedAction, FailureKind, SkipReason};
use cross_seed::torznab::{
    first_result, is_magnet, next_resolve_step, ResolveStep, ResultError, TorrentResult,
};

#[test]
fn units_cover_the_cross_product() {
    assert_eq!(work_units(2, 3), vec![(0, 0), (0, 1), (0, 2), (1, 0), (1, 1), (1, 2)]);
    assert!(work_units(0, 3).is_empty());
    assert!(work_units(3, 0).is_empty());
}

#[test]
fn locks_serialize_per_fingerprint() {
    let mut locks = MutationLocks::new();
    let h1 = "h1".to_string();
    let h2 = "h2".to_string();
    assert!(locks.try_acquire(&h1));
    assert!(!locks.try_acquire(&h1));
    assert!(locks.try_acquire(&h2));
    assert!(locks.is_held(&h1));
    locks.release(&h1);
    assert!(!locks.is_held(&h1));
    assert!(locks.is_held(&h2));
    assert!(locks.try_acquire(&h1));
}

#[test]
fn report_counts_outcomes() {
    let mut report = RunReport::new();
    report.record("t".into(), "i1".into(), UnitOutcome::Acted(ActionKind::AddTrackers));
    report.record("t".into(), "i2".into(), UnitOutcome::Skipped(SkipReason::SameRelease));
    report.record("u".into(), "i1".into(), UnitOutcome::Failed(FailureKind::SearchFailure));
    report.record("u".into(), "i2".into(), UnitOutcome::Failed(FailureKind::PartialReplacement));
    assert_eq!(report.summary(), (1, 1, 2));
    assert_eq!(outcome_of(&CrossSeedAction::Materialize { fingerprint: "h".into() }), UnitOutcome::Acted(ActionKind::Materialize));
    assert_eq!(
        outcome_of(&CrossSeedAction::Skip(SkipReason::NotFinished)),
        UnitOutcome::Skipped(SkipReason::NotFinished)
    );
}

#[test]
fn only_torrent_files_are_listed() {
    let entries = vec![
        ListedEntry { path: "/t/a.torrent".into(), is_file: true },
        ListedEntry { path: "/t/b.txt".into(), is_file: true },
        ListedEntry { path: "/t/dir.torrent".into(), is_file: false },
        ListedEntry { path: "/t/sub/c.torrent".into(), is_file: true },
        ListedEntry { path: ".torrent".into(), is_file: true },
    ];
    assert_eq!(
        read_torrents(&entries),
        vec!["/t/a.torrent".to_string(), "/t/sub/c.torrent".to_string(), ".torrent".to_string()]
    );
}

#[test]
fn redirects_are_bounded() {
    assert_eq!(next_resolve_step(0, 200, None), ResolveStep::Decode);
    assert_eq!(next_resolve_step(0, 301, Some("http://x/t".into())), ResolveStep::Follow("http://x/t".into()));
    assert_eq!(next_resolve_step(4, 302, Some("http://x/t".into())), ResolveStep::Follow("http://x/t".into()));
    assert_eq!(next_resolve_step(5, 301, Some("http://x/t".into())), ResolveStep::Fail(ResultError::TooManyRedirects));
    assert_eq!(next_resolve_step(0, 301, None), ResolveStep::Fail(ResultError::InvalidRedirect));
    assert_eq!(
        next_resolve_step(1, 308, Some("magnet:?xt=urn:btih:abc".into())),
        ResolveStep::Fail(ResultError::UnsupportedMagnet)
    );
}

#[test]
fn results_need_title_and_link() {
    assert_eq!(TorrentResult::from_parts(None, Some("l".into())), Err(ResultError::MissingTitle));
    assert_eq!(TorrentResult::from_parts(Some("t".into()), None), Err(ResultError::MissingLink));
    let r = TorrentResult::from_parts(Some("t".into()), Some("l".into())).unwrap();
    assert_eq!(r, TorrentResult { name: "t".into(), link: "l".into() });
    let magnet = TorrentResult { name: "m".into(), link: "magnet:?xt=1".into() };
    assert_eq!(magnet.first_request(), Err(ResultError::UnsupportedMagnet));
    assert_eq!(r.first_request(), Ok("l".to_string()));
    assert!(is_magnet(&"magnet:?".to_string()));
    assert!(!is_magnet(&"magnet:".to_string()));
    let results = vec![r.clone(), magnet];
    assert_eq!(first_result(&results), Some(&r));
    assert_eq!(first_result(&Vec::new()), None);
}

#[test]
fn config_defaults() {
    assert!(default_bool_true());
    assert_eq!(RunMode::default(), RunMode::Script);
    assert_eq!(TorrentMode::default(), TorrentMode::InjectTrackers);
    assert_eq!(LogLevel::default(), LogLevel::Info);
    let mut config = Config {
        torrents_path: "/t".into(),
        output_path: None,
        run_mode: RunMode::Script,
        torrent_mode: TorrentMode::InjectFile,
        use_cache: false,
        strip_public_trackers: false,
        log_level: LogLevel::Info,
        torrent_category: None,
        indexers: vec![Indexer { name: "a".into(), enabled: None, url: "u".into(), api_key: "k".into() }],
        qbittorrent: None,
    };
    assert_eq!(config.torrent_category(), "cross-seed-rs");
    assert_eq!(config.torrents_path_str(), "/t");
    assert_eq!(config.output_path_str(), None);
    config.torrent_category = Some("tv".into());
    assert_eq!(config.torrent_category(), "tv");
    assert!(config.indexers[0].is_enabled());
    config.indexers[0].enabled = Some(false);
    assert!(!config.indexers[0].is_enabled());
}
