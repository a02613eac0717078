use music_file_playlist_online_sync::api::mock::MockProvider;
use music_file_playlist_online_sync::api::{perform_provider_request, ErrorKind, Provider};
use music_file_playlist_online_sync::config::Config;
use music_file_playlist_online_sync::db::{
    enqueue_event, fetch_unsynced_events, get_remote_playlist_id, get_track_cache_by_local,
    upsert_playlist_map, Store,
};
use music_file_playlist_online_sync::models::{Event, EventAction};
use music_file_playlist_online_sync::protocol::{Request, Response};
use music_file_playlist_online_sync::reconcile::{
    backoff, difference, rate_limit_wait, Pass, Phase,
};
use music_file_playlist_online_sync::worker::{
    group_by_playlist, plan_pass, plan_pass_from, plan_run, should_consume,
};
use std::cell::RefCell;
use std::collections::HashMap;

/// A provider that records every call and answers from a script.
struct Scripted {
    name: String,
    calls: RefCell<Vec<String>>,
    add_results: RefCell<Vec<Result<(), ErrorKind>>>,
    rename_results: RefCell<Vec<Result<(), ErrorKind>>>,
    ensure_ids: RefCell<Vec<String>>,
    isrc_hits: HashMap<String, String>,
    search_hits: HashMap<(String, String), String>,
    remote_tracks: Vec<String>,
    valid: bool,
}

impl Scripted {
    fn new(name: &str) -> Scripted {
        Scripted {
            name: name.to_string(),
            calls: RefCell::new(Vec::new()),
            add_results: RefCell::new(Vec::new()),
            rename_results: RefCell::new(Vec::new()),
            ensure_ids: RefCell::new(Vec::new()),
            isrc_hits: HashMap::new(),
            search_hits: HashMap::new(),
            remote_tracks: Vec::new(),
            valid: true,
        }
    }

    fn count(&self, prefix: &str) -> usize {
        self.calls.borrow().iter().filter(|c| c.starts_with(prefix)).count()
    }
}

impl Provider for Scripted {
    fn ensure_playlist(&self, name: &str, _description: &str) -> Result<String, ErrorKind> {
        self.calls.borrow_mut().push(format!("ensure_playlist:{}", name));
        let mut ids = self.ensure_ids.borrow_mut();
        if ids.is_empty() {
            Ok(format!("id-{}", name))
        } else {
            Ok(ids.remove(0))
        }
    }

    fn rename_playlist(&self, playlist_id: &str, new_name: &str) -> Result<(), ErrorKind> {
        self.calls.borrow_mut().push(format!("rename_playlist:{}:{}", playlist_id, new_name));
        let mut rs = self.rename_results.borrow_mut();
        if rs.is_empty() {
            Ok(())
        } else {
            rs.remove(0)
        }
    }

    fn add_tracks(&self, playlist_id: &str, uris: &Vec<String>) -> Result<(), ErrorKind> {
        self.calls.borrow_mut().push(format!("add_tracks:{}:{}", playlist_id, uris.join(",")));
        let mut rs = self.add_results.borrow_mut();
        if rs.is_empty() {
            Ok(())
        } else {
            rs.remove(0)
        }
    }

    fn remove_tracks(&self, playlist_id: &str, uris: &Vec<String>) -> Result<(), ErrorKind> {
        self.calls.borrow_mut().push(format!("remove_tracks:{}:{}", playlist_id, uris.join(",")));
        Ok(())
    }

    fn delete_playlist(&self, playlist_id: &str) -> Result<(), ErrorKind> {
        self.calls.borrow_mut().push(format!("delete_playlist:{}", playlist_id));
        Ok(())
    }

    fn list_playlist_tracks(&self, playlist_id: &str) -> Result<Vec<String>, ErrorKind> {
        self.calls.borrow_mut().push(format!("list_playlist_tracks:{}", playlist_id));
        Ok(self.remote_tracks.clone())
    }

    fn search_track_uri(&self, title: &str, artist: &str) -> Result<Option<String>, ErrorKind> {
        self.calls.borrow_mut().push(format!("search:{}:{}", title, artist));
        Ok(self.search_hits.get(&(title.to_string(), artist.to_string())).cloned())
    }

    fn search_track_uri_by_isrc(&self, isrc: &str) -> Result<Option<String>, ErrorKind> {
        self.calls.borrow_mut().push(format!("search_by_isrc:{}", isrc));
        Ok(self.isrc_hits.get(isrc).cloned())
    }

    fn playlist_is_valid(&self, playlist_id: &str) -> Result<bool, ErrorKind> {
        self.calls.borrow_mut().push(format!("playlist_is_valid:{}", playlist_id));
        Ok(self.valid)
    }

    fn name(&self) -> &str {
        &self.name
    }

    fn is_authenticated(&self) -> bool {
        true
    }
}

/// What a run of a pass did besides calling the provider.
struct Run {
    synced: bool,
    sleeps: Vec<u64>,
    steps: usize,
}

/// Runs a pass to its end: the store answers what is for the store, the
/// provider what is for the provider; files are as `local` and `tags` say.
fn run_pass<P: Provider>(
    pass: &Pass,
    store: &mut Store,
    provider: &P,
    local: &Vec<String>,
    tags: &HashMap<String, String>,
) -> Run {
    run_pass_on(pass, store, provider, Some(local), tags)
}

/// Runs a pass to its end; `local` is `None` where there is no local playlist
/// file.
fn run_pass_on<P: Provider>(
    pass: &Pass,
    store: &mut Store,
    provider: &P,
    local: Option<&Vec<String>>,
    tags: &HashMap<String, String>,
) -> Run {
    let mut run = Run { synced: false, sleeps: Vec::new(), steps: 0 };
    let (mut state, mut req) = pass.begin();
    loop {
        run.steps += 1;
        assert!(run.steps < 10_000, "the pass does not end");
        let resp = match &req {
            Request::Finished { synced } => {
                run.synced = *synced;
                return run;
            }
            Request::Sleep { secs } => {
                run.sleeps.push(*secs);
                Response::Done
            }
            Request::ReadLocalPlaylist { .. } => match local {
                Some(paths) => Response::Texts(paths.clone()),
                None => Response::Missing,
            },
            Request::ExtractIsrc { local_path } => Response::Text(tags.get(local_path).cloned()),
            other => match store.perform(other) {
                Some(a) => a,
                None => match perform_provider_request(provider, other) {
                    Some(a) => a,
                    None => panic!("a request that nobody answers: {:?}", other),
                },
            },
        };
        let next = pass.advance(state, resp);
        state = next.0;
        req = next.1;
    }
}

fn cfg() -> Config {
    Config::with_defaults("/music".to_string())
}

fn ev(id: i64, playlist: &str, action: EventAction, track: Option<&str>) -> Event {
    Event {
        id,
        timestamp_ms: id,
        playlist_name: playlist.to_string(),
        action,
        track_path: track.map(|s| s.to_string()),
        extra: None,
        is_synced: false,
    }
}

#[test]
fn cancellation_makes_no_provider_add_or_remove() {
    let mut store = Store::new();
    enqueue_event(&mut store, "a/b", &EventAction::Add, Some("a/b/s.mp3"), None).unwrap();
    enqueue_event(&mut store, "a/b", &EventAction::Remove, Some("a/b/s.mp3"), None).unwrap();
    let events = fetch_unsynced_events(&store);
    assert_eq!(events.len(), 2);
    let provider = Scripted::new("spotify");
    let pass = plan_pass(&cfg(), "spotify", "a/b", "w1", &events);
    assert!(pass.track_ops.is_empty());
    let run = run_pass(&pass, &mut store, &provider, &Vec::new(), &HashMap::new());
    assert!(run.synced);
    assert_eq!(provider.count("add_tracks"), 0);
    assert_eq!(provider.count("remove_tracks"), 0);
    assert!(fetch_unsynced_events(&store).is_empty());
}

#[test]
fn rename_follows_folder() {
    let mut store = Store::new();
    upsert_playlist_map(&mut store, "spotify", "Artist/Old", "rid-1");
    let rename = EventAction::Rename { from: "Artist/Old".to_string(), to: "Artist/New".to_string() };
    let events = vec![ev(1, "Artist/Old", rename, None)];
    let provider = Scripted::new("spotify");
    let pass = plan_pass(&cfg(), "spotify", "Artist/Old", "w1", &events);
    let run = run_pass(&pass, &mut store, &provider, &Vec::new(), &HashMap::new());
    assert!(run.synced);
    let renames: Vec<String> = provider
        .calls
        .borrow()
        .iter()
        .filter(|c| c.starts_with("rename_playlist"))
        .cloned()
        .collect();
    assert_eq!(renames, vec!["rename_playlist:rid-1:Artist/New".to_string()]);
    assert_eq!(get_remote_playlist_id(&store, "spotify", "Artist/Old"), None);
    assert_eq!(get_remote_playlist_id(&store, "spotify", "Artist/New"), Some("rid-1".to_string()));
    assert_eq!(provider.count("ensure_playlist"), 0);

    // The next run for the new key finds the id and creates nothing.
    let next = vec![ev(2, "Artist/New", EventAction::Create, None)];
    let pass2 = plan_pass(&cfg(), "spotify", "Artist/New", "w1", &next);
    let run2 = run_pass(&pass2, &mut store, &provider, &Vec::new(), &HashMap::new());
    assert!(run2.synced);
    assert_eq!(provider.count("ensure_playlist"), 0);
}

#[test]
fn isrc_has_priority_over_search() {
    let mut store = Store::new();
    let track = "/music/pl/Unknown - Track.mp3";
    let events = vec![ev(1, "pl", EventAction::Add, Some(track))];
    let mut provider = Scripted::new("x");
    provider.isrc_hits.insert("DEVF11900580".to_string(), "x:track:42".to_string());
    let mut tags = HashMap::new();
    tags.insert(track.to_string(), "DEVF11900580".to_string());
    let pass = plan_pass(&cfg(), "x", "pl", "w1", &events);
    let run = run_pass(&pass, &mut store, &provider, &Vec::new(), &tags);
    assert!(run.synced);
    assert_eq!(provider.count("search:"), 0);
    assert_eq!(provider.count("search_by_isrc:DEVF11900580"), 1);
    let adds: Vec<String> =
        provider.calls.borrow().iter().filter(|c| c.starts_with("add_tracks")).cloned().collect();
    assert_eq!(adds, vec!["add_tracks:id-pl:x:track:42".to_string()]);
    assert_eq!(
        get_track_cache_by_local(&store, "x", track),
        Some((Some("DEVF11900580".to_string()), Some("x:track:42".to_string())))
    );
}

#[test]
fn resolved_track_is_reused_without_the_provider() {
    let mut store = Store::new();
    let track = "/music/pl/Unknown - Track.mp3";
    let mut provider = Scripted::new("x");
    provider.isrc_hits.insert("DEVF11900580".to_string(), "x:track:42".to_string());
    let mut tags = HashMap::new();
    tags.insert(track.to_string(), "DEVF11900580".to_string());
    let first = vec![ev(1, "pl", EventAction::Add, Some(track))];
    let pass = plan_pass(&cfg(), "x", "pl", "w1", &first);
    run_pass(&pass, &mut store, &provider, &Vec::new(), &tags);
    let searches = provider.count("search");
    let second = vec![ev(2, "pl", EventAction::Remove, Some(track))];
    let pass2 = plan_pass(&cfg(), "x", "pl", "w1", &second);
    run_pass(&pass2, &mut store, &provider, &Vec::new(), &HashMap::new());
    assert_eq!(provider.count("search"), searches);
    assert_eq!(provider.count("remove_tracks:id-pl:x:track:42"), 1);
}

#[test]
fn rate_limit_is_honored() {
    let mut store = Store::new();
    upsert_playlist_map(&mut store, "spotify", "pl", "rid");
    let events = vec![ev(1, "pl", EventAction::Add, Some("uri::spotify:track:1"))];
    let provider = Scripted::new("spotify");
    provider.add_results.borrow_mut().push(Err(ErrorKind::RateLimited { retry_after: Some(3) }));
    provider.add_results.borrow_mut().push(Err(ErrorKind::RateLimited { retry_after: Some(3) }));
    let pass = plan_pass(&cfg(), "spotify", "pl", "w1", &events);
    let run = run_pass(&pass, &mut store, &provider, &Vec::new(), &HashMap::new());
    assert_eq!(run.sleeps, vec![4, 4]);
    assert!(run.sleeps.iter().sum::<u64>() >= 8);
    assert_eq!(provider.count("add_tracks"), 3);
    assert!(run.synced);
}

#[test]
fn missing_playlist_is_recreated_during_a_batch() {
    let mut store = Store::new();
    upsert_playlist_map(&mut store, "tidal", "pl", "X");
    let events = vec![ev(1, "pl", EventAction::Add, Some("uri::tidal:track:1"))];
    let provider = Scripted::new("tidal");
    provider.add_results.borrow_mut().push(Err(ErrorKind::PlaylistMissing));
    provider.ensure_ids.borrow_mut().push("Y".to_string());
    let pass = plan_pass(&cfg(), "tidal", "pl", "w1", &events);
    let run = run_pass(&pass, &mut store, &provider, &Vec::new(), &HashMap::new());
    assert!(run.synced);
    let calls: Vec<String> = provider
        .calls
        .borrow()
        .iter()
        .filter(|c| c.starts_with("add_tracks") || c.starts_with("ensure_playlist"))
        .cloned()
        .collect();
    assert_eq!(
        calls,
        vec![
            "add_tracks:X:tidal:track:1".to_string(),
            "ensure_playlist:pl".to_string(),
            "add_tracks:Y:tidal:track:1".to_string(),
        ]
    );
    assert_eq!(get_remote_playlist_id(&store, "tidal", "pl"), Some("Y".to_string()));
}

#[test]
fn missing_playlist_is_recreated_during_a_rename() {
    let mut store = Store::new();
    upsert_playlist_map(&mut store, "tidal", "Old", "X");
    let rename = EventAction::Rename { from: "Old".to_string(), to: "New".to_string() };
    let events = vec![ev(1, "Old", rename, None)];
    let provider = Scripted::new("tidal");
    provider.rename_results.borrow_mut().push(Err(ErrorKind::PlaylistMissing));
    provider.ensure_ids.borrow_mut().push("Y".to_string());
    let pass = plan_pass(&cfg(), "tidal", "Old", "w1", &events);
    let run = run_pass(&pass, &mut store, &provider, &Vec::new(), &HashMap::new());
    assert!(run.synced);
    assert_eq!(provider.count("ensure_playlist:New"), 1);
    assert_eq!(get_remote_playlist_id(&store, "tidal", "Old"), None);
    assert_eq!(get_remote_playlist_id(&store, "tidal", "New"), Some("Y".to_string()));
}

#[test]
fn remote_tracks_are_brought_to_the_local_playlist() {
    let mut store = Store::new();
    upsert_playlist_map(&mut store, "spotify", "pl", "rid");
    let events = vec![ev(1, "pl", EventAction::Create, None)];
    let mut provider = Scripted::new("spotify");
    provider.remote_tracks = vec!["u:old".to_string(), "u:keep".to_string()];
    provider.search_hits.insert(("Keep".to_string(), "A".to_string()), "u:keep".to_string());
    provider.search_hits.insert(("New".to_string(), "A".to_string()), "u:new".to_string());
    let local = vec![
        "/music/pl/A - Keep.mp3".to_string(),
        "/music/pl/A - New.mp3".to_string(),
        "/music/pl/A - Nowhere.mp3".to_string(),
    ];
    let pass = plan_pass(&cfg(), "spotify", "pl", "w1", &events);
    let run = run_pass(&pass, &mut store, &provider, &local, &HashMap::new());
    assert!(run.synced);
    assert_eq!(provider.count("remove_tracks:rid:u:old"), 1);
    assert_eq!(provider.count("add_tracks:rid:u:new"), 1);
    assert_eq!(provider.count("add_tracks"), 1);
    assert_eq!(provider.count("remove_tracks"), 1);
}

#[test]
fn delete_forgets_the_playlist_and_marks_the_events() {
    let mut store = Store::new();
    upsert_playlist_map(&mut store, "spotify", "pl", "rid");
    enqueue_event(&mut store, "pl", &EventAction::Delete, None, None).unwrap();
    let events = fetch_unsynced_events(&store);
    let provider = Scripted::new("spotify");
    let pass = plan_pass(&cfg(), "spotify", "pl", "w1", &events);
    assert!(pass.has_delete);
    let run = run_pass(&pass, &mut store, &provider, &Vec::new(), &HashMap::new());
    assert!(run.synced);
    assert_eq!(provider.count("delete_playlist:rid"), 1);
    assert_eq!(provider.count("ensure_playlist"), 0);
    assert_eq!(get_remote_playlist_id(&store, "spotify", "pl"), None);
    assert!(fetch_unsynced_events(&store).is_empty());
}

#[test]
fn a_held_lease_skips_the_pass() {
    let mut store = Store::new();
    assert!(music_file_playlist_online_sync::db::try_acquire_playlist_lock(
        &mut store, "pl", "other", 600
    ));
    let events = vec![ev(1, "pl", EventAction::Create, None)];
    let provider = Scripted::new("spotify");
    let pass = plan_pass(&cfg(), "spotify", "pl", "w1", &events);
    let run = run_pass(&pass, &mut store, &provider, &Vec::new(), &HashMap::new());
    assert!(!run.synced);
    assert!(provider.calls.borrow().is_empty());
    assert_eq!(run.steps, 2);
}

#[test]
fn batches_hold_at_most_the_configured_number() {
    let mut store = Store::new();
    upsert_playlist_map(&mut store, "spotify", "pl", "rid");
    let mut c = cfg();
    c.max_batch_size_spotify = 2;
    let events = vec![
        ev(1, "pl", EventAction::Add, Some("uri::a")),
        ev(2, "pl", EventAction::Add, Some("uri::b")),
        ev(3, "pl", EventAction::Add, Some("uri::c")),
    ];
    let collapsed = vec![
        ev(0, "", EventAction::Add, Some("uri::a")),
        ev(0, "", EventAction::Add, Some("uri::b")),
        ev(0, "", EventAction::Add, Some("uri::c")),
    ];
    let provider = Scripted::new("spotify");
    let pass = plan_pass_from(&c, "spotify", "pl", "w1", &events, &collapsed);
    assert_eq!(pass.event_ids, vec![1, 2, 3]);
    let run = run_pass(&pass, &mut store, &provider, &Vec::new(), &HashMap::new());
    assert!(run.synced);
    let adds: Vec<String> =
        provider.calls.borrow().iter().filter(|c| c.starts_with("add_tracks")).cloned().collect();
    assert_eq!(adds, vec!["add_tracks:rid:a,b".to_string(), "add_tracks:rid:c".to_string()]);
}

#[test]
fn a_permanent_fault_leaves_the_events_unsynced() {
    let mut store = Store::new();
    upsert_playlist_map(&mut store, "spotify", "pl", "rid");
    enqueue_event(&mut store, "pl", &EventAction::Add, Some("uri::a"), None).unwrap();
    let events = fetch_unsynced_events(&store);
    let provider = Scripted::new("spotify");
    provider.add_results.borrow_mut().push(Err(ErrorKind::PermanentNetwork));
    let pass = plan_pass(&cfg(), "spotify", "pl", "w1", &events);
    let run = run_pass(&pass, &mut store, &provider, &Vec::new(), &HashMap::new());
    assert!(!run.synced);
    assert!(run.sleeps.is_empty());
    assert_eq!(fetch_unsynced_events(&store).len(), 1);
}

#[test]
fn a_passing_fault_is_tried_again_with_growing_waits() {
    let mut store = Store::new();
    upsert_playlist_map(&mut store, "spotify", "pl", "rid");
    let events = vec![ev(1, "pl", EventAction::Add, Some("uri::a"))];
    let provider = Scripted::new("spotify");
    for _ in 0..5 {
        provider.add_results.borrow_mut().push(Err(ErrorKind::TransientNetwork));
    }
    let pass = plan_pass(&cfg(), "spotify", "pl", "w1", &events);
    let run = run_pass(&pass, &mut store, &provider, &Vec::new(), &HashMap::new());
    assert_eq!(run.sleeps, vec![2, 4]);
    assert_eq!(provider.count("add_tracks"), 3);
    assert!(!run.synced);
}

#[test]
fn run_worker_uses_mock_provider_and_marks_events_synced() {
    let mut store = Store::new();
    enqueue_event(&mut store, "pl1", &EventAction::Create, None, None).unwrap();
    let events = fetch_unsynced_events(&store);
    let provider = MockProvider::new();
    for group in group_by_playlist(&events) {
        let pass = plan_pass(&cfg(), Provider::name(&provider), &group.playlist, "w", &group.events);
        let run = run_pass(&pass, &mut store, &provider, &Vec::new(), &HashMap::new());
        assert!(run.synced);
    }
    assert_eq!(fetch_unsynced_events(&store).len(), 0);
    assert_eq!(get_remote_playlist_id(&store, "mock", "pl1"), Some("mock-playlist-pl1".to_string()));
}

#[test]
fn test_event_propagates_to_all_providers() {
    let mut store = Store::new();
    let events = vec![ev(1, "test", EventAction::Create, None)];
    let p1 = Scripted::new("p1");
    let p2 = Scripted::new("p2");
    let pass1 = plan_pass(&cfg(), "p1", "test", "w", &events);
    run_pass(&pass1, &mut store, &p1, &Vec::new(), &HashMap::new());
    let pass2 = plan_pass(&cfg(), "p2", "test", "w", &events);
    run_pass(&pass2, &mut store, &p2, &Vec::new(), &HashMap::new());
    assert!(p1.calls.borrow().contains(&"ensure_playlist:test".to_string()));
    assert!(p2.calls.borrow().contains(&"ensure_playlist:test".to_string()));
}

#[test]
fn waits_double_up_to_sixty_seconds() {
    assert_eq!(backoff(0), 1);
    assert_eq!(backoff(1), 2);
    assert_eq!(backoff(2), 4);
    assert_eq!(backoff(3), 8);
    assert_eq!(backoff(4), 16);
    assert_eq!(backoff(5), 32);
    assert_eq!(backoff(6), 60);
    assert_eq!(backoff(u32::MAX), 60);
    assert_eq!(rate_limit_wait(Some(3), 1), 4);
    assert_eq!(rate_limit_wait(None, 2), 5);
    assert_eq!(rate_limit_wait(Some(u64::MAX), 1), u64::MAX);
}

#[test]
fn difference_keeps_order() {
    let a = vec!["x".to_string(), "y".to_string(), "z".to_string()];
    let b = vec!["y".to_string()];
    assert_eq!(difference(&a, &b), vec!["x".to_string(), "z".to_string()]);
    assert_eq!(difference(&b, &a), Vec::<String>::new());
}

#[test]
fn queue_over_threshold_is_left_alone() {
    assert!(!should_consume(0, None, 1));
    assert!(!should_consume(5, None, 0));
    assert!(should_consume(5, None, 1));
    assert!(should_consume(5, Some(5), 2));
    assert!(!should_consume(6, Some(5), 2));
}

#[test]
fn events_are_grouped_by_playlist_in_order() {
    let events = vec![
        ev(1, "b", EventAction::Create, None),
        ev(2, "a", EventAction::Add, Some("t1")),
        ev(3, "b", EventAction::Add, Some("t2")),
    ];
    let groups = group_by_playlist(&events);
    assert_eq!(groups.len(), 2);
    assert_eq!(groups[0].playlist, "b");
    assert_eq!(groups[0].events.iter().map(|e| e.id).collect::<Vec<i64>>(), vec![1, 3]);
    assert_eq!(groups[1].playlist, "a");
    assert_eq!(groups[1].events.iter().map(|e| e.id).collect::<Vec<i64>>(), vec![2]);
    assert!(group_by_playlist(&[]).is_empty());
}

#[test]
fn a_pass_begins_by_asking_for_the_lease() {
    let events = vec![ev(1, "pl", EventAction::Create, None)];
    let pass = plan_pass(&cfg(), "spotify", "pl", "w1", &events);
    let (state, req) = pass.begin();
    assert_eq!(state.phase, Phase::Leasing);
    assert_eq!(
        req,
        Request::AcquireLease { playlist: "pl".to_string(), worker: "w1".to_string(), ttl_secs: 600 }
    );
}

#[test]
fn a_run_is_planned_only_where_the_queue_is_consumed() {
    let events = vec![ev(1, "a", EventAction::Create, None), ev(2, "b", EventAction::Create, None)];
    assert_eq!(plan_run(&events, Some(1), 1), None);
    assert_eq!(plan_run(&events, None, 0), None);
    assert_eq!(plan_run(&[], None, 1), None);
    let run = plan_run(&events, Some(2), 1).unwrap();
    assert_eq!(run.groups.len(), 2);
    assert!(!run.worker_id.is_empty());
    let other = plan_run(&events, None, 2).unwrap();
    assert_ne!(run.worker_id, other.worker_id);
}

#[test]
fn an_empty_local_playlist_empties_the_remote_playlist() {
    let mut store = Store::new();
    upsert_playlist_map(&mut store, "spotify", "pl", "rid");
    enqueue_event(&mut store, "pl", &EventAction::Create, None, None).unwrap();
    let events = fetch_unsynced_events(&store);
    let mut provider = Scripted::new("spotify");
    provider.remote_tracks = vec!["u:1".to_string(), "u:2".to_string()];
    let pass = plan_pass(&cfg(), "spotify", "pl", "w1", &events);
    let run = run_pass(&pass, &mut store, &provider, &Vec::new(), &HashMap::new());
    assert!(run.synced);
    assert_eq!(provider.count("list_playlist_tracks:rid"), 1);
    assert_eq!(provider.count("remove_tracks:rid:u:1,u:2"), 1);
    assert_eq!(provider.count("add_tracks"), 0);
    assert!(fetch_unsynced_events(&store).is_empty());
}

#[test]
fn without_a_local_playlist_file_the_remote_tracks_stay() {
    let mut store = Store::new();
    upsert_playlist_map(&mut store, "spotify", "pl", "rid");
    let events = vec![ev(1, "pl", EventAction::Add, Some("uri::u:3"))];
    let mut provider = Scripted::new("spotify");
    provider.remote_tracks = vec!["u:1".to_string()];
    let pass = plan_pass(&cfg(), "spotify", "pl", "w1", &events);
    let run = run_pass_on(&pass, &mut store, &provider, None, &HashMap::new());
    assert!(run.synced);
    assert_eq!(provider.count("list_playlist_tracks"), 0);
    assert_eq!(provider.count("remove_tracks"), 0);
    assert_eq!(provider.count("add_tracks:rid:u:3"), 1);
}

#[test]
fn a_rename_without_a_file_under_the_old_key_keeps_the_remote_tracks() {
    let mut store = Store::new();
    upsert_playlist_map(&mut store, "spotify", "Artist/Old", "rid-1");
    let rename = EventAction::Rename { from: "Artist/Old".to_string(), to: "Artist/New".to_string() };
    let events = vec![ev(1, "Artist/Old", rename, None)];
    let mut provider = Scripted::new("spotify");
    provider.remote_tracks = vec!["u:1".to_string()];
    let pass = plan_pass(&cfg(), "spotify", "Artist/Old", "w1", &events);
    let run = run_pass_on(&pass, &mut store, &provider, None, &HashMap::new());
    assert!(run.synced);
    assert_eq!(provider.count("rename_playlist:rid-1:Artist/New"), 1);
    assert_eq!(provider.count("remove_tracks"), 0);
    assert_eq!(get_remote_playlist_id(&store, "spotify", "Artist/New"), Some("rid-1".to_string()));
}
