use music_file_playlist_online_sync::config::{
    default_debounce, default_db_path, default_file_extensions, default_linked_reference_format,
    default_local_template, default_log_dir, default_max_batch_spotify, default_max_retries,
    default_nightly_cron, default_online_playlist_structure, default_playlist_mode,
    default_playlist_order_mode, default_remote_template, default_token_refresh_interval,
    default_worker_interval, Config,
};
use music_file_playlist_online_sync::paths::{is_smb_temp_path, path_matches_extensions};
use music_file_playlist_online_sync::playlist::{
    child_playlist, flat_entry, flat_playlist_text, linked_playlist_text, make_linked_line,
    playlist_entries, render_flat, render_lines, Entry,
};
use music_file_playlist_online_sync::resolver::{candidates, Resolver, ResolveStage};
use music_file_playlist_online_sync::protocol::{Request, Response};
use music_file_playlist_online_sync::util::expand_template;
use music_file_playlist_online_sync::worker::{
    compute_remote_playlist_name, provider_supports_folder_nesting,
};

#[test]
fn flat_playlist_ordering() {
    let files = vec!["/t/a_song.mp3".to_string(), "/t/b_song.mp3".to_string()];
    let s = flat_playlist_text("/t", &files);
    assert!(s.starts_with("#EXTM3U"));
    assert!(s.contains("#EXTINF"));
    assert!(s.contains("a_song.mp3"));
    assert!(s.contains("b_song.mp3"));
    assert_eq!(
        s,
        "#EXTM3U\n#EXTINF:-1,a_song.mp3\na_song.mp3\n#EXTINF:-1,b_song.mp3\nb_song.mp3\n"
    );
    let reversed = vec!["/t/b_song.mp3".to_string(), "/t/a_song.mp3".to_string()];
    let s2 = flat_playlist_text("/t", &reversed);
    assert!(s2.contains("a_song.mp3"));
    assert!(s2.find("b_song.mp3").unwrap() < s2.find("a_song.mp3").unwrap());
}

#[test]
fn linked_playlist_children_refs() {
    let children = vec!["/root/c1".to_string(), "/root/c2".to_string()];
    let s = linked_playlist_text("/root", &children, "relative", "${folder_name}.m3u");
    assert!(s.contains("c1"));
    assert!(s.contains("c2"));
    assert_eq!(s, "c1/c1.m3u\nc2/c2.m3u\n");
    let abs = linked_playlist_text("/root", &children, "absolute", "${folder_name}.m3u");
    assert_eq!(abs, "/root/c1/c1.m3u\n/root/c2/c2.m3u\n");
}

#[test]
fn playlist_text_is_written_line_by_line() {
    assert_eq!(render_flat(&Vec::new()), "#EXTM3U\n");
    let entries = vec![Entry { title: "t".to_string(), path: "sub/t.mp3".to_string() }];
    assert_eq!(render_flat(&entries), "#EXTM3U\n#EXTINF:-1,t\nsub/t.mp3\n");
    assert_eq!(render_lines(&Vec::new()), "");
    assert_eq!(render_lines(&vec!["a".to_string(), "b".to_string()]), "a\nb\n");
    let e = flat_entry("/m/a/b.mp3", Some("b.mp3".to_string()));
    assert_eq!((e.title.as_str(), e.path.as_str()), ("b.mp3", "b.mp3"));
    let e = flat_entry("/m/a/b.mp3", None);
    assert_eq!((e.title.as_str(), e.path.as_str()), ("b.mp3", "/m/a/b.mp3"));
    assert_eq!(child_playlist("/m/a", "${folder_name}.m3u"), "/m/a/a.m3u");
    assert_eq!(make_linked_line("/m/a", "absolute", "x", Some("rel".to_string())), "/m/a/x");
    assert_eq!(make_linked_line("/m/a", "relative", "x", Some("rel".to_string())), "rel");
    assert_eq!(make_linked_line("/m/a", "relative", "x", None), "/m/a/x");
}

#[test]
fn playlist_text_is_read_back() {
    let text = "#EXTM3U\n#EXTINF:-1,a.mp3\na.mp3\r\n\n   \nsub/b.mp3\n# note\n/abs/c.mp3";
    assert_eq!(
        playlist_entries(text, "/m/pl"),
        vec!["/m/pl/a.mp3".to_string(), "/m/pl/sub/b.mp3".to_string(), "/abs/c.mp3".to_string()]
    );
    assert!(playlist_entries("", "/m").is_empty());
    let written = flat_playlist_text("/m/pl", &vec!["/m/pl/x.mp3".to_string()]);
    assert_eq!(playlist_entries(&written, "/m/pl"), vec!["/m/pl/x.mp3".to_string()]);
}

#[test]
fn templates_are_expanded() {
    assert_eq!(expand_template("${folder_name}.m3u", "Album1", ""), "Album1.m3u");
    assert_eq!(expand_template("${relative_path}", "Album", "Artist/"), "Artist/Album");
    assert_eq!(
        expand_template("${path_to_parent}[${folder_name}] ${folder_name}", "B", "A/"),
        "A/[B] B"
    );
    assert_eq!(expand_template("plain", "x", "y"), "plain");
    assert_eq!(expand_template("", "x", "y"), "");
    assert_eq!(expand_template("${folder_name", "x", "y"), "${folder_name");
    // A folder name may itself hold a placeholder, which is expanded in turn.
    assert_eq!(expand_template("${folder_name}", "${path_to_parent}", "P/"), "P/");
}

#[test]
fn remote_names_follow_the_configuration() {
    let mut cfg = Config::with_defaults("/m".to_string());
    assert_eq!(compute_remote_playlist_name(&cfg, "spotify", "Artist/Album"), "Artist/Album");
    assert_eq!(compute_remote_playlist_name(&cfg, "spotify", "Album"), "Album");
    assert_eq!(compute_remote_playlist_name(&cfg, "spotify", "\\Artist\\Album/"), "Artist/Album");

    cfg.online_root_playlist = " Syncd ".to_string();
    assert_eq!(compute_remote_playlist_name(&cfg, "spotify", "Artist/Album"), "Syncd/Artist/Album");

    cfg.online_folder_flattening_delimiter = " | ".to_string();
    assert_eq!(
        compute_remote_playlist_name(&cfg, "spotify", "Artist/Album"),
        "Syncd | Artist | Album"
    );

    cfg.online_playlist_structure = "folders".to_string();
    assert_eq!(compute_remote_playlist_name(&cfg, "spotify", "Artist/Album"), "Syncd/Artist/Album");
    // Tidal has no folders, so its names stay flat.
    assert_eq!(
        compute_remote_playlist_name(&cfg, "tidal", "Artist/Album"),
        "Syncd | Artist | Album"
    );

    cfg.remote_playlist_template_folders = "${folder_name}".to_string();
    cfg.remote_playlist_template_flat = "[${path_to_parent}] ${folder_name}".to_string();
    assert_eq!(compute_remote_playlist_name(&cfg, "spotify", "Artist/Album"), "Album");
    assert_eq!(
        compute_remote_playlist_name(&cfg, "tidal", "Artist/Album"),
        "[Syncd | Artist | ] Album"
    );

    cfg.remote_playlist_template_folders = String::new();
    cfg.remote_playlist_template_flat = String::new();
    cfg.remote_playlist_template = String::new();
    assert_eq!(compute_remote_playlist_name(&cfg, "spotify", "Artist/Album"), "Syncd/Artist/Album");
    assert_eq!(
        compute_remote_playlist_name(&cfg, "tidal", "Artist/Album"),
        "Syncd | Artist | Album"
    );

    assert!(provider_supports_folder_nesting("spotify"));
    assert!(provider_supports_folder_nesting("mock"));
    assert!(!provider_supports_folder_nesting("tidal"));
}

#[test]
fn file_extensions_are_matched_without_regard_to_case() {
    let exts = vec!["*.mp3".to_string(), ".FLAC".to_string(), " ogg ".to_string(), "  ".to_string()];
    assert!(path_matches_extensions("/m/a/Song.MP3", &exts));
    assert!(path_matches_extensions("/m/a/song.flac", &exts));
    assert!(path_matches_extensions("song.Ogg", &exts));
    assert!(!path_matches_extensions("/m/a/song.wav", &exts));
    assert!(!path_matches_extensions("/m/a/song", &exts));
    assert!(!path_matches_extensions("/m/a.mp3/song", &exts));
    assert!(!path_matches_extensions("/m/a/.mp3", &exts));
    assert!(path_matches_extensions("/m/a/x.tar.mp3", &exts));
    assert!(!path_matches_extensions("/m/a/song.mp3", &Vec::new()));
    assert!(path_matches_extensions("/m/a/song.mp3", &default_file_extensions()));
    assert!(path_matches_extensions("/m/a/song.m4a", &default_file_extensions()));
}

#[test]
fn temporary_paths_are_recognised() {
    assert!(is_smb_temp_path("/m/.::TMPNAME:abc/x.mp3"));
    assert!(is_smb_temp_path(".::TMPNAME:abc"));
    assert!(is_smb_temp_path("/m/a/.::TMPNAME:"));
    assert!(!is_smb_temp_path("/m/a.::TMPNAME:b/x.mp3"));
    assert!(!is_smb_temp_path("/m/a/x.mp3"));
    assert!(!is_smb_temp_path(""));
}

#[test]
fn defaults_are_as_documented() {
    assert_eq!(default_local_template(), "${folder_name}.m3u");
    assert_eq!(default_remote_template(), "${relative_path}");
    assert_eq!(default_playlist_order_mode(), "append");
    assert_eq!(default_playlist_mode(), "flat");
    assert_eq!(default_linked_reference_format(), "relative");
    assert_eq!(default_debounce(), 250);
    assert_eq!(default_log_dir(), "/var/log/music-sync");
    assert_eq!(default_token_refresh_interval(), 3600);
    assert_eq!(default_worker_interval(), 300);
    assert_eq!(default_nightly_cron(), "0 3 * * *");
    assert_eq!(default_max_retries(), 3);
    assert_eq!(default_max_batch_spotify(), 100);
    assert_eq!(default_db_path(), "/var/lib/music-sync/music-sync.db");
    assert_eq!(default_online_playlist_structure(), "flat");
    assert_eq!(
        default_file_extensions(),
        vec!["*.mp3", "*.flac", "*.ogg", "*.wav", "*.mp4", "*.m4a"]
    );
    let cfg = Config::with_defaults("/tmp/music".to_string());
    assert_eq!(cfg.root_folder, "/tmp/music");
    assert_eq!(cfg.whitelist, "");
    assert_eq!(cfg.queue_length_stop_cloud_sync_threshold, None);
    assert_eq!(cfg.max_retries_on_error, 3);
    assert_eq!(cfg.online_root_playlist, "");
}

#[test]
fn search_candidates_come_from_the_file_name() {
    assert_eq!(
        candidates("/m/pl/Unknown - Track.mp3"),
        vec![
            ("Unknown".to_string(), "Track".to_string()),
            ("Track".to_string(), "Unknown".to_string())
        ]
    );
    assert_eq!(candidates("/m/pl/Just a Title.flac"), vec![(String::new(), "Just a Title".to_string())]);
    assert_eq!(
        candidates("Artist  -  Song Copy 12.mp3"),
        vec![
            ("Artist".to_string(), "Song".to_string()),
            ("Song Copy 12".to_string(), "Artist".to_string())
        ]
    );
    assert_eq!(candidates("/m/Song copy x.mp3"), vec![(String::new(), "Song copy x".to_string())]);
    assert_eq!(candidates("/m/Song copy .mp3"), vec![(String::new(), "Song copy".to_string())]);
    assert_eq!(candidates("/m/A - B - C.mp3")[0], ("A".to_string(), "B - C".to_string()));
    assert_eq!(candidates("noext"), vec![(String::new(), "noext".to_string())]);
}

#[test]
fn a_path_may_name_its_own_uri() {
    let (r, q) = Resolver::begin("spotify", "uri::spotify:track:9");
    assert_eq!(q, None);
    assert_eq!(r.stage, ResolveStage::Resolved);
    assert_eq!(r.uri, Some("spotify:track:9".to_string()));
    let (r, q) = Resolver::begin("spotify", "uri::");
    assert_eq!(q, None);
    assert_eq!(r.uri, Some(String::new()));
}

#[test]
fn resolution_goes_from_cache_to_isrc_to_search() {
    let path = "/m/pl/A - T.mp3";
    let (r, q) = Resolver::begin("p", path);
    assert_eq!(
        q,
        Some(Request::CacheLookup { provider: "p".to_string(), local_path: path.to_string() })
    );
    let (r, q) = r.advance(Response::Cached { found: false, isrc: None, uri: None });
    assert_eq!(q, Some(Request::ExtractIsrc { local_path: path.to_string() }));
    let (r, q) = r.advance(Response::Text(Some("ISRC1".to_string())));
    assert_eq!(
        q,
        Some(Request::CacheStore {
            provider: "p".to_string(),
            local_path: path.to_string(),
            isrc: Some("ISRC1".to_string()),
            uri: None
        })
    );
    let (r, q) = r.advance(Response::Done);
    assert_eq!(q, Some(Request::SearchByIsrc { code: "ISRC1".to_string() }));
    let (r, q) = r.advance(Response::Text(None));
    assert_eq!(q, Some(Request::Search { title: "T".to_string(), artist: "A".to_string() }));
    let (r, q) = r.advance(Response::Text(None));
    assert_eq!(q, Some(Request::Search { title: "A".to_string(), artist: "T".to_string() }));
    let (r2, q2) = r.clone().advance(Response::Text(None));
    assert_eq!(q2, None);
    assert_eq!(r2.stage, ResolveStage::Unresolved);
    assert_eq!(r2.uri, None);
    let (r, q) = r.advance(Response::Text(Some("u:1".to_string())));
    assert_eq!(
        q,
        Some(Request::CacheStore {
            provider: "p".to_string(),
            local_path: path.to_string(),
            isrc: Some("ISRC1".to_string()),
            uri: Some("u:1".to_string())
        })
    );
    let (r, q) = r.advance(Response::Done);
    assert_eq!(q, None);
    assert_eq!(r.stage, ResolveStage::Resolved);
    assert_eq!(r.uri, Some("u:1".to_string()));
}

#[test]
fn a_found_track_without_isrc_is_looked_up() {
    let (r, _) = Resolver::begin("p", "/m/T.mp3");
    let (r, _) = r.advance(Response::Failed(music_file_playlist_online_sync::api::ErrorKind::StoreFailure));
    let (r, q) = r.advance(Response::Text(None));
    assert_eq!(q, Some(Request::Search { title: "T".to_string(), artist: String::new() }));
    let (r, q) = r.advance(Response::Text(Some("u:2".to_string())));
    assert_eq!(q, Some(Request::LookupIsrc { track: "u:2".to_string() }));
    let (r, q) = r.advance(Response::Text(Some("I2".to_string())));
    assert_eq!(
        q,
        Some(Request::CacheStore {
            provider: "p".to_string(),
            local_path: "/m/T.mp3".to_string(),
            isrc: Some("I2".to_string()),
            uri: Some("u:2".to_string())
        })
    );
    let (r, q) = r.advance(Response::Done);
    assert_eq!(q, None);
    assert_eq!(r.uri, Some("u:2".to_string()));
}

#[test]
fn a_cached_uri_ends_the_resolution() {
    let (r, _) = Resolver::begin("p", "/m/T.mp3");
    let (r, q) = r.advance(Response::Cached {
        found: true,
        isrc: None,
        uri: Some("u:3".to_string()),
    });
    assert_eq!(q, None);
    assert_eq!(r.stage, ResolveStage::Resolved);
    assert_eq!(r.uri, Some("u:3".to_string()));
    let (r, _) = Resolver::begin("p", "/m/T.mp3");
    let (_, q) = r.advance(Response::Cached { found: true, isrc: Some("I".to_string()), uri: None });
    assert_eq!(q, Some(Request::SearchByIsrc { code: "I".to_string() }));
}
