use music_file_playlist_online_sync::collapse::{collapse_events, collapse_events_at};
use music_file_playlist_online_sync::db::{
    release_playlist_lock, try_acquire_playlist_lock, try_acquire_playlist_lock_at, Store,
};
use music_file_playlist_online_sync::models::{Event, EventAction};

#[test]
fn test_try_acquire_release_lock() {
    let mut store = Store::new();

    let got = try_acquire_playlist_lock(&mut store, "pl1", "worker1", 10);
    assert!(got, "should acquire initial lock");

    // second attempt should fail
    let got2 = try_acquire_playlist_lock(&mut store, "pl1", "worker2", 10);
    assert!(!got2, "second worker should not acquire lock");

    // release with wrong worker -> no effect
    release_playlist_lock(&mut store, "pl1", "wrong");
    // still not acquirable by worker2
    let got3 = try_acquire_playlist_lock(&mut store, "pl1", "worker2", 10);
    assert!(!got3, "lock still held by worker1");

    // release by owner
    release_playlist_lock(&mut store, "pl1", "worker1");
    let got4 = try_acquire_playlist_lock(&mut store, "pl1", "worker2", 10);
    assert!(got4, "should acquire after release");
}

#[test]
fn locks_and_provider_tests_collapse_add_remove_pair() {
    let a = Event {
        id: 1,
        timestamp_ms: 1,
        playlist_name: "p".into(),
        action: EventAction::Add,
        track_path: Some("t.mp3".into()),
        extra: None,
        is_synced: false,
    };
    let r = Event {
        id: 2,
        timestamp_ms: 2,
        playlist_name: "p".into(),
        action: EventAction::Remove,
        track_path: Some("t.mp3".into()),
        extra: None,
        is_synced: false,
    };
    let res = collapse_events(&[a, r]);
    // After collapse, no add/remove for t.mp3
    assert!(res.iter().all(|e| e.track_path.as_deref() != Some("t.mp3")));
}

#[test]
fn collapse_collapse_add_remove_pair() {
    let a = Event { id: 1, timestamp_ms: 1, playlist_name: "p".into(), action: EventAction::Add, track_path: Some("t.mp3".into()), extra: None, is_synced: false };
    let r = Event { id: 2, timestamp_ms: 2, playlist_name: "p".into(), action: EventAction::Remove, track_path: Some("t.mp3".into()), extra: None, is_synced: false };
    let res = collapse_events(&[a, r]);
    assert!(res.iter().all(|e| match e.action { EventAction::Add | EventAction::Remove => false, _ => true }) == false || res.is_empty());
    // In our simple impl they cancel out => no track ops included
    // Only ensure no Add/Remove remains for that track
    assert!(res.iter().all(|e| e.track_path.as_deref() != Some("t.mp3")));
}

#[test]
fn a_lease_is_exclusive_until_it_expires() {
    let mut store = Store::new();
    assert!(try_acquire_playlist_lock_at(&mut store, "pl", "w1", 600, 1_000));
    assert!(!try_acquire_playlist_lock_at(&mut store, "pl", "w2", 600, 1_000));
    assert!(!try_acquire_playlist_lock_at(&mut store, "pl", "w1", 600, 1_300));
    assert!(!try_acquire_playlist_lock_at(&mut store, "pl", "w2", 600, 1_599));
    // At its expiry the lease can be taken.
    assert!(try_acquire_playlist_lock_at(&mut store, "pl", "w2", 600, 1_600));
    assert!(!try_acquire_playlist_lock_at(&mut store, "pl", "w1", 600, 1_601));
    // Another playlist has its own lease.
    assert!(try_acquire_playlist_lock_at(&mut store, "other", "w1", 600, 1_601));
}

#[test]
fn a_lease_near_the_end_of_time_does_not_overflow() {
    let mut store = Store::new();
    assert!(try_acquire_playlist_lock_at(&mut store, "pl", "w1", i64::MAX, 10));
    assert!(!try_acquire_playlist_lock_at(&mut store, "pl", "w2", 1, i64::MAX - 1));
}

fn event(id: i64, action: EventAction, track: Option<&str>) -> Event {
    Event {
        id,
        timestamp_ms: id,
        playlist_name: "p".to_string(),
        action,
        track_path: track.map(|s| s.to_string()),
        extra: None,
        is_synced: false,
    }
}

#[test]
fn collapse_of_an_empty_batch_is_empty() {
    assert!(collapse_events_at(&[], 5).is_empty());
}

#[test]
fn collapse_keeps_structural_events_in_order_and_lists_pending_tracks() {
    let rename = EventAction::Rename { from: "a".to_string(), to: "b".to_string() };
    let batch = vec![
        event(1, EventAction::Add, Some("x.mp3")),
        event(2, EventAction::Create, None),
        event(3, EventAction::Remove, Some("y.mp3")),
        event(4, rename.clone(), None),
        event(5, EventAction::Add, Some("x.mp3")),
        event(6, EventAction::Delete, None),
        event(7, EventAction::Add, None),
    ];
    let out = collapse_events_at(&batch, 99);
    assert_eq!(out.len(), 5);
    assert_eq!(out[0], batch[1]);
    assert_eq!(out[1], batch[3]);
    assert_eq!(out[2], batch[5]);
    let mut tracks: Vec<(String, EventAction)> =
        out[3..].iter().map(|e| (e.track_path.clone().unwrap(), e.action.clone())).collect();
    tracks.sort_by(|a, b| a.0.cmp(&b.0));
    assert_eq!(
        tracks,
        vec![("x.mp3".to_string(), EventAction::Add), ("y.mp3".to_string(), EventAction::Remove)]
    );
    for e in &out[3..] {
        assert_eq!(e.id, 0);
        assert_eq!(e.timestamp_ms, 99);
        assert_eq!(e.playlist_name, "");
        assert_eq!(e.extra, None);
        assert!(!e.is_synced);
    }
}

#[test]
fn collapse_cancels_a_pair_with_events_between() {
    let batch = vec![
        event(1, EventAction::Remove, Some("t.mp3")),
        event(2, EventAction::Add, Some("u.mp3")),
        event(3, EventAction::Create, None),
        event(4, EventAction::Add, Some("t.mp3")),
    ];
    let out = collapse_events_at(&batch, 0);
    assert_eq!(out.len(), 2);
    assert_eq!(out[0], batch[2]);
    assert_eq!(out[1].track_path.as_deref(), Some("u.mp3"));
    assert_eq!(out[1].action, EventAction::Add);
}

#[test]
fn collapse_leaves_the_same_tracks_as_the_batch() {
    // The playlist holds "a" at the start.
    let batch = vec![
        event(1, EventAction::Add, Some("b")),
        event(2, EventAction::Remove, Some("a")),
        event(3, EventAction::Add, Some("c")),
        event(4, EventAction::Remove, Some("c")),
        event(5, EventAction::Add, Some("a")),
        event(6, EventAction::Remove, Some("a")),
    ];
    fn apply(start: &[&str], events: &[Event]) -> Vec<String> {
        let mut set: Vec<String> = start.iter().map(|s| s.to_string()).collect();
        for e in events {
            if let Some(t) = &e.track_path {
                match e.action {
                    EventAction::Add => {
                        if !set.contains(t) {
                            set.push(t.clone());
                        }
                    }
                    EventAction::Remove => set.retain(|x| x != t),
                    _ => {}
                }
            }
        }
        set.sort();
        set
    }
    let out = collapse_events_at(&batch, 0);
    assert_eq!(apply(&["a"], &out), apply(&["a"], &batch));
    assert_eq!(apply(&["a"], &out), vec!["b".to_string()]);
}
