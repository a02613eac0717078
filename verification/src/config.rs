//! The configuration of one run.
use vstd::prelude::*;

verus! {

/// The settings that the engine reads. Paths are written with `/` between
/// their segments.
#[derive(Debug, Clone, PartialEq, Eq)]
pub struct Config {
    pub root_folder: String,
    /// Patterns for the folders to watch, separated by `:`; empty for all.
    pub whitelist: String,
    pub local_playlist_template: String,
    pub remote_playlist_template: String,
    /// Used in place of `remote_playlist_template` for flat naming, when not
    /// empty.
    pub remote_playlist_template_flat: String,
    /// Used in place of `remote_playlist_template` for naming by folders,
    /// when not empty.
    pub remote_playlist_template_folders: String,
    pub playlist_description_template: String,
    /// `append` or `sync_order`.
    pub playlist_order_mode: String,
    /// `flat` or `linked`.
    pub playlist_mode: String,
    /// `relative` or `absolute`.
    pub linked_reference_format: String,
    pub debounce_ms: u64,
    pub log_dir: String,
    pub token_refresh_interval: u64,
    pub worker_interval_sec: u64,
    pub nightly_reconcile_cron: String,
    /// The worker leaves the queue alone while it is longer than this.
    pub queue_length_stop_cloud_sync_threshold: Option<u64>,
    pub max_retries_on_error: u32,
    pub max_batch_size_spotify: usize,
    pub db_path: String,
    /// Patterns such as `*.mp3`, `.mp3` or `mp3`, without regard to case.
    pub file_extensions: Vec<String>,
    /// A name under which all remote playlists are gathered; empty for none.
    pub online_root_playlist: String,
    /// `flat` or `folders`.
    pub online_playlist_structure: String,
    /// Stands for `/` in flat names, when not empty.
    pub online_folder_flattening_delimiter: String,
}

/// The name of a local playlist file: the folder's name and `.m3u`.
pub fn default_local_template() -> (r: String)
    ensures
        r@ == "${folder_name}.m3u"@,
{
    String::from_str("${folder_name}.m3u")
}

/// The name of a remote playlist: the path of the folder from the root.
pub fn default_remote_template() -> (r: String)
    ensures
        r@ == "${relative_path}"@,
{
    String::from_str("${relative_path}")
}

/// Tracks are listed by name.
pub fn default_playlist_order_mode() -> (r: String)
    ensures
        r@ == "append"@,
{
    String::from_str("append")
}

/// Playlists are flat.
pub fn default_playlist_mode() -> (r: String)
    ensures
        r@ == "flat"@,
{
    String::from_str("flat")
}

/// Linked playlists refer to others by relative paths.
pub fn default_linked_reference_format() -> (r: String)
    ensures
        r@ == "relative"@,
{
    String::from_str("relative")
}

/// A folder is quiet after 250 milliseconds.
pub fn default_debounce() -> (r: u64)
    ensures
        r == 250,
{
    250
}

/// Where logs are written.
pub fn default_log_dir() -> (r: String)
    ensures
        r@ == "/var/log/music-sync"@,
{
    String::from_str("/var/log/music-sync")
}

/// Tokens are looked after every hour.
pub fn default_token_refresh_interval() -> (r: u64)
    ensures
        r == 3600,
{
    3600
}

/// The worker runs every five minutes.
pub fn default_worker_interval() -> (r: u64)
    ensures
        r == 300,
{
    300
}

/// The full sweep runs at three at night.
pub fn default_nightly_cron() -> (r: String)
    ensures
        r@ == "0 3 * * *"@,
{
    String::from_str("0 3 * * *")
}

/// A request is tried three times.
pub fn default_max_retries() -> (r: u32)
    ensures
        r == 3,
{
    3
}

/// A request holds a hundred tracks at most.
pub fn default_max_batch_spotify() -> (r: usize)
    ensures
        r == 100,
{
    100
}

/// Where the store lies.
pub fn default_db_path() -> (r: String)
    ensures
        r@ == "/var/lib/music-sync/music-sync.db"@,
{
    String::from_str("/var/lib/music-sync/music-sync.db")
}

/// Remote playlists are named flat.
pub fn default_online_playlist_structure() -> (r: String)
    ensures
        r@ == "flat"@,
{
    String::from_str("flat")
}

/// The file extensions taken for tracks where none are configured.
pub open spec fn default_extensions() -> Seq<Seq<char>> {
    seq!["*.mp3"@, "*.flac"@, "*.ogg"@, "*.wav"@, "*.mp4"@, "*.m4a"@]
}

/// The files taken for tracks.
pub fn default_file_extensions() -> (r: Vec<String>)
    ensures
        r@.map_values(|s: String| s@) == default_extensions(),
{
    let mut r: Vec<String> = Vec::new();
    r.push(String::from_str("*.mp3"));
    r.push(String::from_str("*.flac"));
    r.push(String::from_str("*.ogg"));
    r.push(String::from_str("*.wav"));
    r.push(String::from_str("*.mp4"));
    r.push(String::from_str("*.m4a"));
    assert(r@.map_values(|s: String| s@) =~= default_extensions());
    r
}

impl Config {
    /// The configuration with the given root folder and every other setting at
    /// its default.
    pub fn with_defaults(root_folder: String) -> (c: Config)
        ensures
            c.root_folder@ == root_folder@,
            c.whitelist@.len() == 0,
            c.local_playlist_template@ == "${folder_name}.m3u"@,
            c.remote_playlist_template@ == "${relative_path}"@,
            c.remote_playlist_template_flat@.len() == 0,
            c.remote_playlist_template_folders@.len() == 0,
            c.playlist_description_template@.len() == 0,
            c.playlist_order_mode@ == "append"@,
            c.playlist_mode@ == "flat"@,
            c.linked_reference_format@ == "relative"@,
            c.debounce_ms == 250,
            c.log_dir@ == "/var/log/music-sync"@,
            c.token_refresh_interval == 3600,
            c.worker_interval_sec == 300,
            c.nightly_reconcile_cron@ == "0 3 * * *"@,
            c.queue_length_stop_cloud_sync_threshold is None,
            c.max_retries_on_error == 3,
            c.max_batch_size_spotify == 100,
            c.db_path@ == "/var/lib/music-sync/music-sync.db"@,
            c.file_extensions@.map_values(|s: String| s@) == default_extensions(),
            c.online_root_playlist@.len() == 0,
            c.online_playlist_structure@ == "flat"@,
            c.online_folder_flattening_delimiter@.len() == 0,
    {
        Config {
            root_folder,
            whitelist: String::new(),
            local_playlist_template: default_local_template(),
            remote_playlist_template: default_remote_template(),
            remote_playlist_template_flat: String::new(),
            remote_playlist_template_folders: String::new(),
            playlist_description_template: String::new(),
            playlist_order_mode: default_playlist_order_mode(),
            playlist_mode: default_playlist_mode(),
            linked_reference_format: default_linked_reference_format(),
            debounce_ms: default_debounce(),
            log_dir: default_log_dir(),
            token_refresh_interval: default_token_refresh_interval(),
            worker_interval_sec: default_worker_interval(),
            nightly_reconcile_cron: default_nightly_cron(),
            queue_length_stop_cloud_sync_threshold: None,
            max_retries_on_error: default_max_retries(),
            max_batch_size_spotify: default_max_batch_spotify(),
            db_path: default_db_path(),
            file_extensions: default_file_extensions(),
            online_root_playlist: String::new(),
            online_playlist_structure: default_online_playlist_structure(),
            online_folder_flattening_delimiter: String::new(),
        }
    }
}

} // verus!
