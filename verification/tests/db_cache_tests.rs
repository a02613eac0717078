use music_file_playlist_online_sync::api::ErrorKind;
use music_file_playlist_online_sync::db::{
    clear_unsynced_events, delete_playlist_map, enqueue_event, enqueue_event_at,
    fetch_unsynced_events, get_remote_playlist_id, get_track_cache_by_local,
    load_credential_with_client, mark_events_synced, migrate_playlist_map, save_credential_raw,
    unsynced_count, upsert_playlist_map, upsert_track_cache, Store,
};
use music_file_playlist_online_sync::json::rename_extra;
use music_file_playlist_online_sync::models::{action_str, decode_action, EventAction};
use music_file_playlist_online_sync::protocol::{Request, Response};

#[test]
fn playlist_map_and_track_cache_persistence() {
    let mut store = Store::new();

    // test playlist_map upsert (scoped by provider; use spotify for compatibility)
    upsert_playlist_map(&mut store, "spotify", "mypl", "rid123");
    let got = get_remote_playlist_id(&store, "spotify", "mypl");
    assert_eq!(got, Some("rid123".into()));

    // test track cache upsert + lookup (scoped by provider; use spotify)
    upsert_track_cache(&mut store, "spotify", "/music/a/song.mp3", Some("ISRC123"), Some("rid-trk-1"));
    let cached = get_track_cache_by_local(&store, "spotify", "/music/a/song.mp3");
    assert!(cached.is_some());
    let (isrc, rid) = cached.unwrap();
    assert_eq!(isrc.unwrap(), "ISRC123");
    assert_eq!(rid.unwrap(), "rid-trk-1");
}

#[test]
fn playlist_map_is_scoped_by_provider() {
    let mut store = Store::new();
    upsert_playlist_map(&mut store, "spotify", "pl", "s1");
    upsert_playlist_map(&mut store, "tidal", "pl", "t1");
    upsert_playlist_map(&mut store, "spotify", "pl", "s2");
    assert_eq!(get_remote_playlist_id(&store, "spotify", "pl"), Some("s2".to_string()));
    assert_eq!(get_remote_playlist_id(&store, "tidal", "pl"), Some("t1".to_string()));
    assert_eq!(get_remote_playlist_id(&store, "tidal", "other"), None);
    delete_playlist_map(&mut store, "spotify", "pl");
    assert_eq!(get_remote_playlist_id(&store, "spotify", "pl"), None);
    assert_eq!(get_remote_playlist_id(&store, "tidal", "pl"), Some("t1".to_string()));
}

#[test]
fn migrate_moves_the_remote_id_to_the_new_key() {
    let mut store = Store::new();
    upsert_playlist_map(&mut store, "spotify", "Artist/Old", "rid");
    migrate_playlist_map(&mut store, "spotify", "Artist/Old", "Artist/New");
    assert_eq!(get_remote_playlist_id(&store, "spotify", "Artist/Old"), None);
    assert_eq!(get_remote_playlist_id(&store, "spotify", "Artist/New"), Some("rid".to_string()));
    // Without an entry to move, nothing changes.
    migrate_playlist_map(&mut store, "spotify", "Nowhere", "Artist/New");
    assert_eq!(get_remote_playlist_id(&store, "spotify", "Artist/New"), Some("rid".to_string()));
    assert_eq!(get_remote_playlist_id(&store, "spotify", "Nowhere"), None);
}

#[test]
fn events_come_back_by_time_then_id_until_marked() {
    let mut store = Store::new();
    enqueue_event_at(&mut store, "pl", &EventAction::Create, None, None, 30).unwrap();
    enqueue_event_at(&mut store, "pl", &EventAction::Add, Some("a"), None, 10).unwrap();
    enqueue_event_at(&mut store, "pl", &EventAction::Remove, Some("b"), Some("x"), 10).unwrap();
    enqueue_event_at(&mut store, "other", &EventAction::Delete, None, None, 20).unwrap();
    let events = fetch_unsynced_events(&store);
    let order: Vec<(i64, i64)> = events.iter().map(|e| (e.timestamp_ms, e.id)).collect();
    assert_eq!(order, vec![(10, 2), (10, 3), (20, 4), (30, 1)]);
    assert_eq!(events[1].track_path.as_deref(), Some("b"));
    assert_eq!(events[1].extra.as_deref(), Some("x"));
    assert_eq!(events[1].playlist_name, "pl");
    assert!(!events[1].is_synced);
    assert_eq!(unsynced_count(&store), 4);

    mark_events_synced(&mut store, &[2, 4, 77]);
    let left: Vec<i64> = fetch_unsynced_events(&store).iter().map(|e| e.id).collect();
    assert_eq!(left, vec![3, 1]);

    assert_eq!(clear_unsynced_events(&mut store), 2);
    assert!(fetch_unsynced_events(&store).is_empty());
    assert_eq!(clear_unsynced_events(&mut store), 0);
}

#[test]
fn ids_grow_with_each_event() {
    let mut store = Store::new();
    for _ in 0..3 {
        enqueue_event(&mut store, "pl", &EventAction::Create, None, None).unwrap();
    }
    let mut ids: Vec<i64> = fetch_unsynced_events(&store).iter().map(|e| e.id).collect();
    ids.sort();
    assert_eq!(ids, vec![1, 2, 3]);
}

#[test]
fn token_refresh_keeps_the_client_in_the_credentials() {
    let mut store = Store::new();
    assert_eq!(load_credential_with_client(&store, "spotify"), None);
    save_credential_raw(&mut store, "spotify", "{\"access_token\":\"old\"}", Some("test_id"), Some("test_secret"));
    save_credential_raw(&mut store, "spotify", "{\"access_token\":\"new\"}", None, None);
    assert_eq!(
        load_credential_with_client(&store, "spotify"),
        Some((
            "{\"access_token\":\"new\"}".to_string(),
            Some("test_id".to_string()),
            Some("test_secret".to_string())
        ))
    );
    save_credential_raw(&mut store, "spotify", "t3", Some("other_id"), None);
    assert_eq!(
        load_credential_with_client(&store, "spotify"),
        Some(("t3".to_string(), Some("other_id".to_string()), Some("test_secret".to_string())))
    );
    assert_eq!(load_credential_with_client(&store, "tidal"), None);
}

#[test]
fn first_credentials_may_lack_a_client() {
    let mut store = Store::new();
    save_credential_raw(&mut store, "tidal", "t", None, None);
    assert_eq!(load_credential_with_client(&store, "tidal"), Some(("t".to_string(), None, None)));
}

#[test]
fn the_store_answers_requests() {
    let mut store = Store::new();
    let lookup = Request::CacheLookup { provider: "p".to_string(), local_path: "/a.mp3".to_string() };
    assert_eq!(
        store.perform_at(&lookup, 5),
        Some(Response::Cached { found: false, isrc: None, uri: None })
    );
    let save = Request::CacheStore {
        provider: "p".to_string(),
        local_path: "/a.mp3".to_string(),
        isrc: Some("I".to_string()),
        uri: None,
    };
    assert_eq!(store.perform_at(&save, 5), Some(Response::Done));
    assert_eq!(
        store.perform_at(&lookup, 6),
        Some(Response::Cached { found: true, isrc: Some("I".to_string()), uri: None })
    );
    let lease = Request::AcquireLease { playlist: "pl".to_string(), worker: "w".to_string(), ttl_secs: 10 };
    assert_eq!(store.perform_at(&lease, 100), Some(Response::Flag(true)));
    assert_eq!(store.perform_at(&lease, 109), Some(Response::Flag(false)));
    assert_eq!(store.perform_at(&lease, 110), Some(Response::Flag(true)));
    let get = Request::GetRemoteId { provider: "p".to_string(), playlist: "pl".to_string() };
    assert_eq!(store.perform_at(&get, 0), Some(Response::Text(None)));
    assert_eq!(store.perform_at(&Request::Sleep { secs: 1 }, 0), None);
    assert_eq!(store.perform_at(&Request::EnsurePlaylist { name: "n".to_string() }, 0), None);
}

#[test]
fn actions_have_their_names_in_the_queue() {
    assert_eq!(action_str(&EventAction::Add), "add");
    assert_eq!(action_str(&EventAction::Remove), "remove");
    assert_eq!(action_str(&EventAction::Create), "create");
    assert_eq!(action_str(&EventAction::Delete), "delete");
    let rename = EventAction::Rename { from: "a".to_string(), to: "b".to_string() };
    assert_eq!(action_str(&rename), "rename");

    assert_eq!(decode_action("add", None), EventAction::Add);
    assert_eq!(decode_action("remove", Some("ignored")), EventAction::Remove);
    assert_eq!(decode_action("delete", None), EventAction::Delete);
    assert_eq!(decode_action("create", None), EventAction::Create);
    assert_eq!(decode_action("something", None), EventAction::Create);
    assert_eq!(
        decode_action("rename", Some("{\"from\":\"Artist/Old\",\"to\":\"Artist/New\"}")),
        EventAction::Rename { from: "Artist/Old".to_string(), to: "Artist/New".to_string() }
    );
    assert_eq!(
        decode_action("rename", Some("not json")),
        EventAction::Rename { from: String::new(), to: String::new() }
    );
    assert_eq!(
        decode_action("rename", Some("{\"from\":7}")),
        EventAction::Rename { from: String::new(), to: String::new() }
    );
    assert_eq!(
        decode_action("rename", None),
        EventAction::Rename { from: String::new(), to: String::new() }
    );
}

#[test]
fn the_queue_fails_when_no_id_is_left() {
    let mut store = Store::starting_at(i64::MAX - 1);
    assert_eq!(enqueue_event_at(&mut store, "pl", &EventAction::Create, None, None, 1), Ok(()));
    assert_eq!(
        enqueue_event_at(&mut store, "pl", &EventAction::Create, None, None, 2),
        Err(ErrorKind::StoreFailure)
    );
    let ids: Vec<i64> = fetch_unsynced_events(&store).iter().map(|e| e.id).collect();
    assert_eq!(ids, vec![i64::MAX - 1]);
}

#[test]
fn the_text_of_a_rename_is_read_back() {
    let text = rename_extra("Artist/\"Old\"", "Artist/New \\ é");
    assert_eq!(
        decode_action("rename", Some(&text)),
        EventAction::Rename { from: "Artist/\"Old\"".to_string(), to: "Artist/New \\ é".to_string() }
    );
    assert_eq!(rename_extra("a", "b"), "{\"from\":\"a\",\"to\":\"b\"}");
}
