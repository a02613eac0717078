use music_file_playlist_online_sync::config::Config;
use music_file_playlist_online_sync::debounce::{
    initial_jobs, job_event, nightly_jobs, playlist_job, Debouncer,
};
use music_file_playlist_online_sync::ingest::{
    effects_of, key_of_folder, playlist_file_of, synthetic_events, NoticeKind, RemoveKind, SeenPath,
};
use music_file_playlist_online_sync::models::EventAction;
use music_file_playlist_online_sync::watcher::{
    any_match, folder_allowed, parse_whitelist, FolderNode, InMemoryTree, LogicalOp, ScanEntry,
    SyntheticEvent,
};

fn dir(path: &str) -> ScanEntry {
    ScanEntry { path: path.to_string(), is_dir: true, is_file: false }
}

fn file(path: &str) -> ScanEntry {
    ScanEntry { path: path.to_string(), is_dir: false, is_file: true }
}

fn mp3() -> Vec<String> {
    vec!["*.mp3".to_string()]
}

#[test]
fn in_memory_tree_applies_synthetic_events() {
    let root = "/tmp/root";
    let entries = vec![dir(root), dir("/tmp/root/a"), file("/tmp/root/a/song1.mp3"), dir("/tmp/root/b")];
    let mut tree = InMemoryTree::build(root, None, None, &entries);
    // file exists so node should have the track
    let folder_a = "/tmp/root/a";
    assert!(tree.contains_node(folder_a));
    assert!(tree.node(folder_a).unwrap().tracks.contains("/tmp/root/a/song1.mp3"));

    // apply a synthetic file create in b
    let new_track = "/tmp/root/b/new.mp3".to_string();
    let ops = tree.apply_synthetic_event(SyntheticEvent::FileCreate(new_track.clone()));
    assert!(matches!(ops.get(0).unwrap(), LogicalOp::Add { .. }));
    // node should now contain the new track
    assert!(tree.node("/tmp/root/b").unwrap().tracks.contains(&new_track));

    // apply remove
    let ops = tree.apply_synthetic_event(SyntheticEvent::FileRemove(new_track.clone()));
    assert!(matches!(ops.get(0).unwrap(), LogicalOp::Remove { .. }));
    assert!(!tree.node("/tmp/root/b").unwrap().tracks.contains(&new_track));

    // rename between folders
    let from = "/tmp/root/a/song1.mp3".to_string();
    let to = "/tmp/root/b/song1_renamed.mp3".to_string();
    let ops = tree.apply_synthetic_event(SyntheticEvent::FileRename { from: from.clone(), to: to.clone() });
    // expect remove + add
    assert!(matches!(ops.get(0).unwrap(), LogicalOp::Remove { .. }));
    assert!(matches!(ops.get(1).unwrap(), LogicalOp::Add { .. }));
    assert_eq!(
        ops,
        vec![
            LogicalOp::Remove { playlist_folder: "/tmp/root/a".to_string(), track_path: from },
            LogicalOp::Add { playlist_folder: "/tmp/root/b".to_string(), track_path: to.clone() },
        ]
    );
    assert!(tree.node("/tmp/root/b").unwrap().tracks.contains(&to));
    assert!(!tree.node("/tmp/root/a").unwrap().tracks.contains("/tmp/root/a/song1.mp3"));
}

#[test]
fn a_new_folder_node_is_empty() {
    let n = FolderNode::new("/r/a".to_string());
    assert_eq!(n.path, "/r/a");
    assert!(n.children.to_vec().is_empty());
    assert!(n.tracks.to_vec().is_empty());
}

#[test]
fn build_takes_whitelisted_folders_and_matching_files() {
    let entries = vec![
        dir("/r"),
        dir("/r/Artist"),
        dir("/r/Artist/Album"),
        file("/r/Artist/Album/01.MP3"),
        file("/r/Artist/Album/cover.jpg"),
        dir("/r/Artist/.::TMPNAME:abc"),
        file("/r/Artist/.::TMPNAME:abc/02.mp3"),
        dir("/r/Other"),
        file("/r/Other/03.mp3"),
    ];
    let exts = mp3();
    let tree = InMemoryTree::build("/r", Some("Artist : [invalid"), Some(&exts), &entries);
    let mut folders = tree.folders();
    folders.sort();
    assert_eq!(folders, vec!["/r/Artist".to_string(), "/r/Artist/Album".to_string()]);
    assert_eq!(tree.node("/r/Artist").unwrap().children.to_vec(), vec!["/r/Artist/Album".to_string()]);
    assert_eq!(
        tree.node("/r/Artist/Album").unwrap().tracks.to_vec(),
        vec!["/r/Artist/Album/01.MP3".to_string()]
    );
    assert!(!tree.contains_node("/r/Other"));
    assert!(!tree.contains_node("/r"));
    assert_eq!(tree.whitelist, Some(vec!["Artist".to_string(), "[invalid".to_string()]));
}

#[test]
fn a_whitelist_that_rejects_all_gives_an_empty_tree_and_no_events() {
    let entries = vec![dir("/r"), dir("/r/a"), file("/r/a/s.mp3")];
    let exts = mp3();
    let mut tree = InMemoryTree::build("/r", Some("^nothing-matches-this$"), Some(&exts), &entries);
    assert!(tree.folders().is_empty());
    let cfg = Config::with_defaults("/r".to_string());
    assert!(nightly_jobs(&cfg, &tree).is_empty());
    let ops = tree.apply_synthetic_event(SyntheticEvent::FileCreate("/r/a/t.mp3".to_string()));
    assert!(ops.is_empty());
    assert!(tree.folders().is_empty());
}

#[test]
fn whitelists_are_lists_of_patterns() {
    assert_eq!(parse_whitelist(""), Vec::<String>::new());
    assert_eq!(parse_whitelist(" a :: b: "), vec!["a".to_string(), "b".to_string()]);
    assert!(folder_allowed(&None, "/anything"));
    assert!(!folder_allowed(&Some(Vec::new()), "/anything"));
    let wl = Some(vec!["^/music/Rock".to_string(), "Jazz$".to_string()]);
    assert!(folder_allowed(&wl, "/music/Rock/Album"));
    assert!(folder_allowed(&wl, "/music/Cool Jazz"));
    assert!(!folder_allowed(&wl, "/music/Pop"));
    assert!(!folder_allowed(&Some(vec!["(".to_string()]), "("));
    assert!(any_match(&vec![None, Some(false), Some(true)]));
    assert!(!any_match(&vec![None, Some(false)]));
    assert!(!any_match(&Vec::new()));
}

#[test]
fn folder_for_path_finds_the_nearest_folder() {
    let entries = vec![dir("/r"), dir("/r/a")];
    let tree = InMemoryTree::build("/r", None, None, &entries);
    assert_eq!(tree.folder_for_path("/r/a/s.mp3", false), Some("/r/a".to_string()));
    assert_eq!(tree.folder_for_path("/r/a", true), Some("/r/a".to_string()));
    assert_eq!(tree.folder_for_path("/r/new/s.mp3", false), Some("/r/new".to_string()));
    assert_eq!(tree.folder_for_path("/elsewhere/s.mp3", false), None);
    assert_eq!(tree.folder_for_path("/rx/s.mp3", false), None);

    let guarded = InMemoryTree::build("/r", Some("^/r/a$"), None, &entries);
    assert_eq!(guarded.folder_for_path("/r/a/deep/er/s.mp3", false), Some("/r/a".to_string()));
    assert_eq!(guarded.folder_for_path("/r/b/s.mp3", false), None);
}

#[test]
fn folder_events_change_the_tree() {
    let entries = vec![dir("/r"), dir("/r/a")];
    let mut tree = InMemoryTree::build("/r", None, None, &entries);
    assert_eq!(tree.node("/r").unwrap().children.to_vec(), vec!["/r/a".to_string()]);

    let ops = tree.apply_synthetic_event(SyntheticEvent::FolderCreate("/r/b".to_string()));
    assert_eq!(ops, vec![LogicalOp::Create { playlist_folder: "/r/b".to_string() }]);
    assert!(tree.contains_node("/r/b"));
    assert!(tree.node("/r").unwrap().children.contains("/r/b"));

    tree.apply_synthetic_event(SyntheticEvent::FileCreate("/r/a/s.mp3".to_string()));
    let ops = tree.apply_synthetic_event(SyntheticEvent::FolderRename {
        from: "/r/a".to_string(),
        to: "/r/c".to_string(),
    });
    assert_eq!(
        ops,
        vec![LogicalOp::PlaylistRename { from_folder: "/r/a".to_string(), to_folder: "/r/c".to_string() }]
    );
    assert!(!tree.contains_node("/r/a"));
    assert!(tree.node("/r/c").unwrap().tracks.contains("/r/a/s.mp3"));
    assert!(tree.node("/r").unwrap().children.contains("/r/c"));

    let ops = tree.apply_synthetic_event(SyntheticEvent::FolderRemove("/r/b".to_string()));
    assert_eq!(ops, vec![LogicalOp::Delete { playlist_folder: "/r/b".to_string() }]);
    assert!(!tree.contains_node("/r/b"));
    assert!(!tree.node("/r").unwrap().children.contains("/r/b"));
}

fn seen(path: &str, is_file: bool, is_dir: bool) -> SeenPath {
    SeenPath { path: path.to_string(), is_file, is_dir }
}

#[test]
fn notices_are_told_apart() {
    let entries = vec![dir("/r"), dir("/r/a")];
    let tree = InMemoryTree::build("/r", None, None, &entries);
    let exts = mp3();
    let one = |kind, p: SeenPath| synthetic_events(&tree, kind, &vec![p], &exts);
    assert_eq!(
        one(NoticeKind::Create, seen("/r/a/s.mp3", true, false)),
        vec![SyntheticEvent::FileCreate("/r/a/s.mp3".to_string())]
    );
    assert!(one(NoticeKind::Create, seen("/r/a/s.txt", true, false)).is_empty());
    assert_eq!(
        one(NoticeKind::Create, seen("/r/n", false, true)),
        vec![SyntheticEvent::FolderCreate("/r/n".to_string())]
    );
    assert_eq!(
        one(NoticeKind::Modify, seen("/r/a/s.mp3", true, false)),
        vec![SyntheticEvent::FileCreate("/r/a/s.mp3".to_string())]
    );
    assert!(one(NoticeKind::Modify, seen("/r/a", false, true)).is_empty());
    assert_eq!(
        one(NoticeKind::Remove(RemoveKind::File), seen("/r/a/s.mp3", false, false)),
        vec![SyntheticEvent::FileRemove("/r/a/s.mp3".to_string())]
    );
    assert_eq!(
        one(NoticeKind::Remove(RemoveKind::Any), seen("/r/a/s.mp3", false, false)),
        vec![SyntheticEvent::FileRemove("/r/a/s.mp3".to_string())]
    );
    assert_eq!(
        one(NoticeKind::Remove(RemoveKind::Folder), seen("/r/a", false, false)),
        vec![SyntheticEvent::FolderRemove("/r/a".to_string())]
    );
    assert!(one(NoticeKind::Remove(RemoveKind::Other), seen("/r/a/s.mp3", false, false)).is_empty());
    assert!(one(NoticeKind::Other, seen("/r/a/s.mp3", true, false)).is_empty());
    assert!(synthetic_events(&tree, NoticeKind::Create, &Vec::new(), &exts).is_empty());

    let two = |a: &str, b: &str| {
        synthetic_events(&tree, NoticeKind::Modify, &vec![seen(a, false, false), seen(b, true, false)], &exts)
    };
    assert_eq!(
        two("/r/a", "/r/z"),
        vec![SyntheticEvent::FolderRename { from: "/r/a".to_string(), to: "/r/z".to_string() }]
    );
    assert_eq!(
        two("/r/a/x.mp3", "/r/a/y.mp3"),
        vec![SyntheticEvent::FileRename { from: "/r/a/x.mp3".to_string(), to: "/r/a/y.mp3".to_string() }]
    );
}

#[test]
fn temporary_paths_never_appear_in_events() {
    let tree = InMemoryTree::build("/r", None, None, &vec![dir("/r")]);
    let exts = mp3();
    let tmp = "/r/.::TMPNAME:x1/s.mp3";
    for kind in [NoticeKind::Create, NoticeKind::Modify, NoticeKind::Remove(RemoveKind::Any)] {
        assert!(synthetic_events(&tree, kind, &vec![seen(tmp, true, false)], &exts).is_empty());
    }
    let pair = vec![seen("/r/a.mp3", true, false), seen(tmp, true, false)];
    assert!(synthetic_events(&tree, NoticeKind::Modify, &pair, &exts).is_empty());
    let pair = vec![seen(tmp, true, false), seen("/r/a.mp3", true, false)];
    assert!(synthetic_events(&tree, NoticeKind::Modify, &pair, &exts).is_empty());
}

#[test]
fn track_changes_reach_the_watched_folders_above() {
    let entries = vec![dir("/music"), dir("/music/Artist"), dir("/music/Artist/Album")];
    let mut tree = InMemoryTree::build("/music", Some("Artist"), None, &entries);
    assert!(!tree.contains_node("/music"));
    let cfg = Config::with_defaults("/music".to_string());
    let ops = tree.apply_synthetic_event(SyntheticEvent::FileCreate("/music/Artist/Album/t.mp3".to_string()));
    assert_eq!(ops.len(), 1);
    let fx = effects_of(&tree, &cfg, &ops[0]);
    assert_eq!(fx.debounce, vec!["/music/Artist/Album".to_string(), "/music/Artist".to_string()]);
    let queued: Vec<(String, EventAction, Option<String>)> = fx
        .enqueue
        .iter()
        .map(|q| (q.playlist_name.clone(), q.action.clone(), q.track_path.clone()))
        .collect();
    assert_eq!(
        queued,
        vec![
            ("Artist/Album".to_string(), EventAction::Add, Some("/music/Artist/Album/t.mp3".to_string())),
            ("Artist".to_string(), EventAction::Add, Some("/music/Artist/Album/t.mp3".to_string())),
        ]
    );
    assert_eq!(fx.rename_file, None);
}

#[test]
fn logical_operations_have_their_effects() {
    let entries = vec![dir("/m"), dir("/m/A"), dir("/m/A/Old")];
    let tree = InMemoryTree::build("/m", None, None, &entries);
    let cfg = Config::with_defaults("/m".to_string());

    let fx = effects_of(&tree, &cfg, &LogicalOp::Create { playlist_folder: "/m/A/New".to_string() });
    assert_eq!(fx.debounce, vec!["/m/A/New".to_string(), "/m/A".to_string(), "/m".to_string()]);
    assert!(fx.enqueue.is_empty());

    let fx = effects_of(&tree, &cfg, &LogicalOp::Delete { playlist_folder: "/m/A/Old".to_string() });
    assert_eq!(fx.debounce, vec!["/m/A".to_string(), "/m".to_string()]);
    assert_eq!(fx.enqueue.len(), 1);
    assert_eq!(fx.enqueue[0].playlist_name, "A/Old");
    assert_eq!(fx.enqueue[0].action, EventAction::Delete);
    assert_eq!(fx.enqueue[0].track_path, None);

    let fx = effects_of(
        &tree,
        &cfg,
        &LogicalOp::PlaylistRename { from_folder: "/m/A/Old".to_string(), to_folder: "/m/A/New".to_string() },
    );
    assert_eq!(
        fx.debounce,
        vec![
            "/m/A/Old".to_string(),
            "/m/A/New".to_string(),
            "/m/A".to_string(),
            "/m".to_string(),
            "/m/A".to_string(),
            "/m".to_string()
        ]
    );
    assert_eq!(fx.enqueue.len(), 1);
    assert_eq!(fx.enqueue[0].playlist_name, "A/Old");
    assert_eq!(
        fx.enqueue[0].action,
        EventAction::Rename { from: "A/Old".to_string(), to: "A/New".to_string() }
    );
    assert_eq!(fx.enqueue[0].extra.as_deref(), Some("{\"from\":\"A/Old\",\"to\":\"A/New\"}"));
    assert_eq!(
        fx.rename_file,
        Some(("/m/A/Old/Old.m3u".to_string(), "/m/A/New/New.m3u".to_string()))
    );

    let guarded = InMemoryTree::build("/m", Some("^/m/A$"), None, &entries);
    let fx = effects_of(
        &guarded,
        &cfg,
        &LogicalOp::Remove { playlist_folder: "/m/B".to_string(), track_path: "/m/B/t.mp3".to_string() },
    );
    assert!(fx.debounce.is_empty());
    assert!(fx.enqueue.is_empty());
}

#[test]
fn playlists_are_named_after_their_folder() {
    let mut cfg = Config::with_defaults("/m".to_string());
    assert_eq!(key_of_folder(&cfg, "/m/A/B"), "A/B");
    assert_eq!(key_of_folder(&cfg, "/m"), "");
    assert_eq!(key_of_folder(&cfg, "/other/x"), "/other/x");
    assert_eq!(playlist_file_of(&cfg, "/m/A/B"), "/m/A/B/B.m3u");
    cfg.local_playlist_template = "${path_to_parent}${folder_name}.m3u8".to_string();
    assert_eq!(playlist_file_of(&cfg, "/m/A/B"), "/m/A/B/A/B.m3u8");
    assert_eq!(playlist_file_of(&cfg, "/m/A"), "/m/A/A.m3u8");
    cfg.playlist_mode = "linked".to_string();
    let job = playlist_job(&cfg, "/m/A");
    assert_eq!(job.folder, "/m/A");
    assert_eq!(job.key, "A");
    assert_eq!(job.playlist_path, "/m/A/A.m3u8");
    assert!(!job.flat);
}

#[test]
fn nightly_reconcile_enqueues_events() {
    let entries = vec![dir("/root"), dir("/root/Album1"), file("/root/Album1/01 - Test Track.mp3")];
    let exts = mp3();
    let tree = InMemoryTree::build("/root", None, Some(&exts), &entries);
    let cfg = Config::with_defaults("/root".to_string());
    let mut jobs = nightly_jobs(&cfg, &tree);
    jobs.sort_by(|a, b| a.folder.cmp(&b.folder));
    assert!(jobs.len() > 0, "expected jobs after reconcile");
    let keys: Vec<String> = jobs.iter().map(|j| j.key.clone()).collect();
    assert_eq!(keys, vec!["".to_string(), "Album1".to_string()]);
    assert_eq!(jobs[1].playlist_path, "/root/Album1/Album1.m3u");
    assert!(jobs[1].flat);
    assert_eq!(initial_jobs(&cfg, &tree).len(), 2);
}

#[test]
fn folders_wait_until_they_are_quiet() {
    let mut d = Debouncer::new();
    d.schedule("/m/a", 1_000, 250);
    d.schedule("/m/b", 1_100, 250);
    d.schedule("/m/a", 1_200, 250);
    assert!(d.is_waiting("/m/a"));
    assert!(d.take_due(1_349).is_empty());
    assert_eq!(d.take_due(1_350), vec!["/m/b".to_string()]);
    assert!(!d.is_waiting("/m/b"));
    assert!(d.take_due(1_449).is_empty());
    assert_eq!(d.take_due(1_450), vec!["/m/a".to_string()]);
    assert!(d.take_due(u64::MAX).is_empty());
    d.schedule("/m/c", u64::MAX, 10);
    assert!(d.take_due(u64::MAX - 1).is_empty());
    assert_eq!(d.take_due(u64::MAX), vec!["/m/c".to_string()]);
}

#[test]
fn a_job_queues_a_creation_under_its_key() {
    let cfg = Config::with_defaults("/m".to_string());
    let job = playlist_job(&cfg, "/m/A/B");
    let q = job_event(&job);
    assert_eq!(q.playlist_name, "A/B");
    assert_eq!(q.action, EventAction::Create);
    assert_eq!(q.track_path, None);
    assert_eq!(q.extra, None);
}
