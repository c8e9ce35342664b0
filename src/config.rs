//! Run configuration: modes, indexer endpoints and download-client settings.
use vstd::prelude::*;

verus! {

/// The value a missing boolean switch takes where it defaults to on.
pub fn default_bool_true() -> (r: bool)
    ensures
        r,
{
    true
}

/// Whether the program exits after one pass or runs at intervals.
#[derive(Clone, Copy, Debug, PartialEq, Eq, Structural)]
pub enum RunMode {
    Script,
    Daemon,
}

impl Default for RunMode {
    fn default() -> (r: Self)
        ensures
            r == RunMode::Script,
    {
        RunMode::Script
    }
}

/// How a found cross-seed is handed to the download client.
#[derive(Clone, Copy, Debug, PartialEq, Eq, Structural)]
pub enum TorrentMode {
    /// Add the found torrent's trackers to the torrent the client already
    /// seeds.
    InjectTrackers,
    /// Upload the found torrent as a second, independent torrent.
    InjectFile,
    /// Store the found torrent in the output directory.
    Filesystem,
}

impl Default for TorrentMode {
    fn default() -> (r: Self)
        ensures
            r == TorrentMode::InjectTrackers,
    {
        TorrentMode::InjectTrackers
    }
}

/// Logging verbosity.
#[derive(Clone, Copy, Debug, PartialEq, Eq, Structural)]
pub enum LogLevel {
    Error,
    Warn,
    Info,
    Debug,
    Trace,
    Off,
}

impl Default for LogLevel {
    fn default() -> (r: Self)
        ensures
            r == LogLevel::Info,
    {
        LogLevel::Info
    }
}

/// Connection settings of a qBittorrent download client.
#[derive(Debug)]
pub struct QBittorrentConfig {
    pub url: String,
    pub username: String,
    pub password: String,
}

/// A search indexer endpoint.
#[derive(Debug)]
pub struct Indexer {
    pub name: String,
    /// Whether the indexer is searched; unset means enabled.
    pub enabled: Option<bool>,
    /// URL to query for searches.
    pub url: String,
    /// Key passed to the indexer's API.
    pub api_key: String,
}

impl Indexer {
    /// Returns whether the indexer takes part in searches: unless it is
    /// switched off explicitly.
    pub fn is_enabled(&self) -> (r: bool)
        ensures
            r == (self.enabled != Some(false)),
    {
        match self.enabled {
            Some(b) => b,
            None => default_bool_true(),
        }
    }
}

/// The category given to added cross-seed torrents when none is configured.
pub open spec fn default_category() -> Seq<char> {
    "cross-seed-rs"@
}

/// The run configuration.
#[derive(Debug)]
pub struct Config {
    /// The directory searched for torrent files.
    pub torrents_path: String,
    /// Where found torrents are stored in filesystem mode.
    pub output_path: Option<String>,
    pub run_mode: RunMode,
    pub torrent_mode: TorrentMode,
    pub use_cache: bool,
    /// Whether public trackers are stripped from cross-seed torrents.
    pub strip_public_trackers: bool,
    pub log_level: LogLevel,
    /// The category of added cross-seed torrents.
    pub torrent_category: Option<String>,
    /// The indexers to search.
    pub indexers: Vec<Indexer>,
    pub qbittorrent: Option<QBittorrentConfig>,
}

impl Config {
    pub fn torrents_path_str(&self) -> (r: &str)
        ensures
            r@ == self.torrents_path@,
    {
        self.torrents_path.as_str()
    }

    pub fn output_path_str(&self) -> (r: Option<&String>)
        ensures
            r == match self.output_path {
                Some(ref p) => Some(p),
                None => None::<&String>,
            },
    {
        self.output_path.as_ref()
    }

    /// The configured category, or `cross-seed-rs`.
    pub fn torrent_category(&self) -> (r: String)
        ensures
            r@ == match self.torrent_category {
                Some(c) => c@,
                None => default_category(),
            },
    {
        match &self.torrent_category {
            Some(c) => c.clone(),
            None => String::from_str("cross-seed-rs"),
        }
    }
}

} // verus!
