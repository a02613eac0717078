//! The store: the event queue, the playlist map, the track cache, the leases
//! and the credentials.
//!
//! `Store` holds these tables in memory and fixes what each operation does to
//! them. Times are seconds since the Unix epoch, but for the time of an
//! event, which is in milliseconds.
use crate::api::ErrorKind;
use crate::clock::{now_millis, now_secs};
use crate::models::{copy_opt, event_views, opt_text, Event, EventAction, EventView};
use crate::protocol::{Request, RequestView, Response, ResponseView};
use crate::resolver::{resolver_begin, resolver_next, uri_override, ResolveStage};
use crate::table::{by_first, Table};
use vstd::prelude::*;

verus! {

/// The remote playlist of a local one.
pub struct MapEntry {
    pub remote_id: String,
    pub last_synced_at: i64,
}

/// What is known of a local track on one provider.
pub struct CacheEntry {
    pub isrc: Option<String>,
    pub remote_uri: Option<String>,
    pub resolved_at: i64,
}

/// A worker's claim on a playlist, held until `expires_at`.
pub struct Lease {
    pub worker_id: String,
    pub locked_at: i64,
    pub expires_at: i64,
}

/// The credentials of one provider.
pub struct Credential {
    pub token_json: String,
    pub client_id: Option<String>,
    pub client_secret: Option<String>,
    pub last_refreshed: i64,
}

/// An entry of the playlist map as contracts see it.
pub struct MapEntryView {
    pub remote_id: Seq<char>,
    pub last_synced_at: i64,
}

/// An entry of the track cache as contracts see it.
pub struct CacheEntryView {
    pub isrc: Option<Seq<char>>,
    pub remote_uri: Option<Seq<char>>,
    pub resolved_at: i64,
}

/// A lease as contracts see it.
pub struct LeaseView {
    pub worker_id: Seq<char>,
    pub locked_at: i64,
    pub expires_at: i64,
}

/// Credentials as contracts see them.
pub struct CredentialView {
    pub token_json: Seq<char>,
    pub client_id: Option<Seq<char>>,
    pub client_secret: Option<Seq<char>>,
    pub last_refreshed: i64,
}

impl View for MapEntry {
    type V = MapEntryView;

    open spec fn view(&self) -> MapEntryView {
        MapEntryView { remote_id: self.remote_id@, last_synced_at: self.last_synced_at }
    }
}

impl View for CacheEntry {
    type V = CacheEntryView;

    open spec fn view(&self) -> CacheEntryView {
        CacheEntryView {
            isrc: opt_text(self.isrc),
            remote_uri: opt_text(self.remote_uri),
            resolved_at: self.resolved_at,
        }
    }
}

impl View for Lease {
    type V = LeaseView;

    open spec fn view(&self) -> LeaseView {
        LeaseView {
            worker_id: self.worker_id@,
            locked_at: self.locked_at,
            expires_at: self.expires_at,
        }
    }
}

impl View for Credential {
    type V = CredentialView;

    open spec fn view(&self) -> CredentialView {
        CredentialView {
            token_json: self.token_json@,
            client_id: opt_text(self.client_id),
            client_secret: opt_text(self.client_secret),
            last_refreshed: self.last_refreshed,
        }
    }
}

/// The store.
pub struct Store {
    events: Vec<Event>,
    next_id: i64,
    playlist_map: Table<MapEntry>,
    track_cache: Table<CacheEntry>,
    locks: Table<Lease>,
    credentials: Table<Credential>,
}

/// The store as contracts see it.
pub struct StoreView {
    /// The events, by ascending time and, within one time, ascending id.
    pub queue: Seq<EventView>,
    /// The id that the next event gets.
    pub next_id: i64,
    /// By provider and playlist key.
    pub playlist_map: Map<(Seq<char>, Seq<char>), MapEntryView>,
    /// By provider and local path.
    pub track_cache: Map<(Seq<char>, Seq<char>), CacheEntryView>,
    /// By playlist key.
    pub locks: Map<Seq<char>, LeaseView>,
    /// By provider.
    pub credentials: Map<Seq<char>, CredentialView>,
}

/// An optional string slice as contracts see it.
pub open spec fn opt_str(o: Option<&str>) -> Option<Seq<char>> {
    match o {
        Some(s) => Some(s@),
        None => None,
    }
}

impl View for Store {
    type V = StoreView;

    closed spec fn view(&self) -> StoreView {
        StoreView {
            queue: event_views(self.events@),
            next_id: self.next_id,
            playlist_map: self.playlist_map@.map_values(|e: MapEntry| e@),
            track_cache: self.track_cache@.map_values(|e: CacheEntry| e@),
            locks: by_first(self.locks@, |e: Lease| e@),
            credentials: by_first(self.credentials@, |e: Credential| e@),
        }
    }
}

/// The queue with the event `e` put in by its time: after every event that is
/// not later than `e`.
pub open spec fn ordered_insert(q: Seq<EventView>, e: EventView) -> Seq<EventView>
    decreases q.len(),
{
    if q.len() == 0 || q.last().timestamp_ms <= e.timestamp_ms {
        q.push(e)
    } else {
        ordered_insert(q.drop_last(), e).push(q.last())
    }
}

/// The events of a queue that are not synced, in order.
pub open spec fn unsynced(q: Seq<EventView>) -> Seq<EventView>
    decreases q.len(),
{
    if q.len() == 0 {
        Seq::empty()
    } else if q.last().is_synced {
        unsynced(q.drop_last())
    } else {
        unsynced(q.drop_last()).push(q.last())
    }
}

/// The events of a queue that are synced, in order.
pub open spec fn synced(q: Seq<EventView>) -> Seq<EventView>
    decreases q.len(),
{
    if q.len() == 0 {
        Seq::empty()
    } else if q.last().is_synced {
        synced(q.drop_last()).push(q.last())
    } else {
        synced(q.drop_last())
    }
}

/// The queue with the events whose id is in `ids` marked as synced.
pub open spec fn marked(q: Seq<EventView>, ids: Seq<i64>) -> Seq<EventView> {
    q.map_values(
        |e: EventView|
            if ids.contains(e.id) {
                EventView { is_synced: true, ..e }
            } else {
                e
            },
    )
}

/// The event that `enqueue_event` makes.
pub open spec fn new_event(
    id: i64,
    now_ms: i64,
    playlist: Seq<char>,
    action: crate::models::ActionView,
    track_path: Option<Seq<char>>,
    extra: Option<Seq<char>>,
) -> EventView {
    EventView {
        id,
        timestamp_ms: now_ms,
        playlist_name: playlist,
        action,
        track_path,
        extra,
        is_synced: false,
    }
}

/// The entry of the playlist map made at the time `now`.
pub open spec fn map_entry(remote_id: Seq<char>, now: i64) -> MapEntryView {
    MapEntryView { remote_id, last_synced_at: now }
}

/// The entry of the track cache made at the time `now`.
pub open spec fn cache_entry(
    isrc: Option<Seq<char>>,
    remote_uri: Option<Seq<char>>,
    now: i64,
) -> CacheEntryView {
    CacheEntryView { isrc, remote_uri, resolved_at: now }
}

/// `a + b`, held within the range of `i64`.
pub open spec fn clamped_sum(a: i64, b: i64) -> i64 {
    if a + b > i64::MAX {
        i64::MAX
    } else if a + b < i64::MIN {
        i64::MIN
    } else {
        (a + b) as i64
    }
}

/// Whether a lease on `playlist` is held at the time `now`.
pub open spec fn lease_held(s: StoreView, playlist: Seq<char>, now: i64) -> bool {
    s.locks.contains_key(playlist) && s.locks[playlist].expires_at > now
}

/// The worker that holds the lease on `playlist` at the time `now`.
pub open spec fn lease_holder(s: StoreView, playlist: Seq<char>, now: i64) -> Option<Seq<char>> {
    if lease_held(s, playlist, now) {
        Some(s.locks[playlist].worker_id)
    } else {
        None
    }
}

/// The store after `worker` asked for the lease on `playlist` at the time
/// `now`: unchanged where a lease is held, else with the lease given to
/// `worker` for `ttl` seconds.
pub open spec fn after_acquire(
    s: StoreView,
    playlist: Seq<char>,
    worker: Seq<char>,
    ttl: i64,
    now: i64,
) -> StoreView {
    if lease_held(s, playlist, now) {
        s
    } else {
        StoreView {
            locks: s.locks.insert(
                playlist,
                LeaseView { worker_id: worker, locked_at: now, expires_at: clamped_sum(now, ttl) },
            ),
            ..s
        }
    }
}

/// The store after `worker` gave back the lease on `playlist`: without the
/// lease where `worker` had it, else unchanged.
pub open spec fn after_release(s: StoreView, playlist: Seq<char>, worker: Seq<char>) -> StoreView {
    if s.locks.contains_key(playlist) && s.locks[playlist].worker_id == worker {
        StoreView { locks: s.locks.remove(playlist), ..s }
    } else {
        s
    }
}

/// What is on record for a provider after credentials were saved: the new
/// token, and the client's id and secret as given or, where none is given, as
/// they were.
pub open spec fn saved_credential(
    s: StoreView,
    provider: Seq<char>,
    token_json: Seq<char>,
    client_id: Option<Seq<char>>,
    client_secret: Option<Seq<char>>,
    now: i64,
) -> CredentialView {
    let had = s.credentials.contains_key(provider);
    CredentialView {
        token_json,
        client_id: if client_id is None && had {
            s.credentials[provider].client_id
        } else {
            client_id
        },
        client_secret: if client_secret is None && had {
            s.credentials[provider].client_secret
        } else {
            client_secret
        },
        last_refreshed: now,
    }
}

/// The playlist map with the entry of `from` moved to `to`; unchanged where
/// `from` has none.
pub open spec fn migrated(
    m: Map<(Seq<char>, Seq<char>), MapEntryView>,
    provider: Seq<char>,
    from: Seq<char>,
    to: Seq<char>,
    now: i64,
) -> Map<(Seq<char>, Seq<char>), MapEntryView> {
    if m.contains_key((provider, from)) {
        m.remove((provider, from)).insert(
            (provider, to),
            MapEntryView { remote_id: m[(provider, from)].remote_id, last_synced_at: now },
        )
    } else {
        m
    }
}

/// Whether a lease that expires at `expires_at`, if there is one, stands in
/// the way of a new lease at the time `now`.
pub open spec fn blocks(expires_at: Option<i64>, now: i64) -> bool {
    match expires_at {
        Some(e) => e > now,
        None => false,
    }
}

/// Tells whether a lease stands in the way of a new one.
pub fn lease_blocks(expires_at: Option<i64>, now: i64) -> (r: bool)
    ensures
        r == blocks(expires_at, now),
{
    match expires_at {
        Some(e) => e > now,
        None => false,
    }
}

/// What stays on record of a client's id or secret: the one given, or, where
/// none is given, the one that was there.
pub fn given_or_kept(given: Option<&str>, kept: Option<String>) -> (r: Option<String>)
    ensures
        opt_text(r) == if given is Some {
            opt_str(given)
        } else {
            opt_text(kept)
        },
{
    match given {
        Some(s) => Some(String::from_str(s)),
        None => kept,
    }
}

/// Gives the time at which a lease taken at `now` for `ttl` seconds expires.
pub fn lease_expiry(a: i64, b: i64) -> (r: i64)
    ensures
        r == clamped_sum(a, b),
{
    match a.checked_add(b) {
        Some(r) => r,
        None => if b > 0 {
            i64::MAX
        } else {
            i64::MIN
        },
    }
}

fn holds_id(ids: &[i64], id: i64) -> (r: bool)
    ensures
        r == ids@.contains(id),
{
    let mut i: usize = 0;
    while i < ids.len()
        invariant
            i <= ids.len(),
            forall|j: int| 0 <= j < i ==> ids@[j] != id,
        decreases ids.len() - i,
    {
        if ids[i] == id {
            return true;
        }
        i += 1;
    }
    false
}

fn owned(o: Option<&str>) -> (r: Option<String>)
    ensures
        opt_text(r) == opt_str(o),
{
    match o {
        Some(s) => Some(String::from_str(s)),
        None => None,
    }
}

impl Store {
    /// The empty store. Its first event gets the id 1.
    pub fn new() -> (s: Store)
        ensures
            well_formed(s@),
            s@.queue == Seq::<EventView>::empty(),
            s@.next_id == 1,
            s@.playlist_map == Map::<(Seq<char>, Seq<char>), MapEntryView>::empty(),
            s@.track_cache == Map::<(Seq<char>, Seq<char>), CacheEntryView>::empty(),
            s@.locks == Map::<Seq<char>, LeaseView>::empty(),
            s@.credentials == Map::<Seq<char>, CredentialView>::empty(),
    {
        Store::starting_at(1)
    }

    /// The empty store whose first event gets the id `first_id`.
    pub fn starting_at(first_id: i64) -> (s: Store)
        ensures
            well_formed(s@),
            s@.queue == Seq::<EventView>::empty(),
            s@.next_id == first_id,
            s@.playlist_map == Map::<(Seq<char>, Seq<char>), MapEntryView>::empty(),
            s@.track_cache == Map::<(Seq<char>, Seq<char>), CacheEntryView>::empty(),
            s@.locks == Map::<Seq<char>, LeaseView>::empty(),
            s@.credentials == Map::<Seq<char>, CredentialView>::empty(),
    {
        let s = Store {
            events: Vec::new(),
            next_id: first_id,
            playlist_map: Table::new(),
            track_cache: Table::new(),
            locks: Table::new(),
            credentials: Table::new(),
        };
        assert(s@.queue =~= Seq::<EventView>::empty());
        assert(s@.playlist_map =~= Map::<(Seq<char>, Seq<char>), MapEntryView>::empty());
        assert(s@.track_cache =~= Map::<(Seq<char>, Seq<char>), CacheEntryView>::empty());
        assert(s@.locks =~= Map::<Seq<char>, LeaseView>::empty());
        assert(s@.credentials =~= Map::<Seq<char>, CredentialView>::empty());
        s
    }
}

/// Puts an event on the queue, with the time `now_ms`. Fails, and leaves the
/// store as it was, when no id is left to give.
pub fn enqueue_event_at(
    store: &mut Store,
    playlist_name: &str,
    action: &EventAction,
    track_path: Option<&str>,
    extra: Option<&str>,
    now_ms: i64,
) -> (r: Result<(), ErrorKind>)
    ensures
        well_formed(old(store)@) ==> well_formed(final(store)@),
        match r {
            Ok(_) => old(store)@.next_id < i64::MAX && final(store)@ == (StoreView {
                queue: ordered_insert(
                    old(store)@.queue,
                    new_event(
                        old(store)@.next_id,
                        now_ms,
                        playlist_name@,
                        action@,
                        opt_str(track_path),
                        opt_str(extra),
                    ),
                ),
                next_id: (old(store)@.next_id + 1) as i64,
                ..old(store)@
            }),
            Err(e) => old(store)@.next_id == i64::MAX && e == ErrorKind::StoreFailure && final(store)@ == old(store)@,
        },
{
    if store.next_id == i64::MAX {
        return Err(ErrorKind::StoreFailure);
    }
    let e = Event {
        id: store.next_id,
        timestamp_ms: now_ms,
        playlist_name: String::from_str(playlist_name),
        action: action.copy(),
        track_path: owned(track_path),
        extra: owned(extra),
        is_synced: false,
    };
    let ghost q = event_views(store.events@);
    let ghost ev = e@;
    let mut p: usize = store.events.len();
    assert(q.take(p as int) =~= q);
    assert(q.skip(p as int) =~= Seq::<EventView>::empty());
    assert(ordered_insert(q.take(p as int), ev) + q.skip(p as int) =~= ordered_insert(q, ev));
    while p > 0 && store.events[p - 1].timestamp_ms > now_ms
        invariant
            p <= store.events.len(),
            q == event_views(store.events@),
            ev.timestamp_ms == now_ms,
            ordered_insert(q, ev) == ordered_insert(q.take(p as int), ev) + q.skip(p as int),
        decreases p,
    {
        proof {
            let t = q.take(p as int);
            assert(t.drop_last() =~= q.take(p - 1));
            assert(t.last() == q[p - 1]);
            assert(ordered_insert(q.take(p - 1), ev).push(q[p - 1]) + q.skip(p as int)
                =~= ordered_insert(q.take(p - 1), ev) + q.skip(p - 1));
        }
        p -= 1;
    }
    proof {
        let t = q.take(p as int);
        if p > 0 {
            assert(t.last() == q[p - 1]);
        }
        assert(ordered_insert(t, ev) == t.push(ev));
        assert(t.push(ev) + q.skip(p as int) =~= q.insert(p as int, ev));
    }
    store.events.insert(p, e);
    store.next_id = store.next_id + 1;
    assert(event_views(store.events@) =~= q.insert(p as int, ev));
    proof {
        if well_formed(old(store)@) {
            lemma_enqueue_keeps_order(old(store)@, ev);
        }
    }
    Ok(())
}

/// Puts an event on the queue, with the time of the call.
pub fn enqueue_event(
    store: &mut Store,
    playlist_name: &str,
    action: &EventAction,
    track_path: Option<&str>,
    extra: Option<&str>,
) -> (r: Result<(), ErrorKind>)
    ensures
        well_formed(old(store)@) ==> well_formed(final(store)@),
        match r {
            Ok(_) => old(store)@.next_id < i64::MAX && exists|now_ms: i64|
                final(store)@ == (StoreView {
                    queue: ordered_insert(
                        old(store)@.queue,
                        #[trigger] new_event(
                            old(store)@.next_id,
                            now_ms,
                            playlist_name@,
                            action@,
                            opt_str(track_path),
                            opt_str(extra),
                        ),
                    ),
                    next_id: (old(store)@.next_id + 1) as i64,
                    ..old(store)@
                }),
            Err(e) => old(store)@.next_id == i64::MAX && e == ErrorKind::StoreFailure && final(store)@ == old(store)@,
        },
{
    let now = now_millis();
    enqueue_event_at(store, playlist_name, action, track_path, extra, now)
}

/// The events that are not synced, in the order of the queue.
pub fn fetch_unsynced_events(store: &Store) -> (r: Vec<Event>)
    ensures
        well_formed(store@) ==> in_order(event_views(r@)),
        event_views(r@) == unsynced(store@.queue),
{
    let ghost q = event_views(store.events@);
    let mut r: Vec<Event> = Vec::new();
    let mut i: usize = 0;
    assert(q.take(0) =~= Seq::<EventView>::empty());
    assert(event_views(r@) =~= unsynced(q.take(0)));
    while i < store.events.len()
        invariant
            i <= store.events.len(),
            q == event_views(store.events@),
            event_views(r@) == unsynced(q.take(i as int)),
        decreases store.events.len() - i,
    {
        proof {
            assert(q.take(i + 1).drop_last() =~= q.take(i as int));
            assert(q.take(i + 1).last() == store.events@[i as int]@);
        }
        if !store.events[i].is_synced {
            let ghost shown = event_views(r@);
            r.push(store.events[i].copy());
            assert(event_views(r@) =~= shown.push(store.events@[i as int]@));
        }
        i += 1;
    }
    assert(q.take(store.events.len() as int) =~= q);
    proof {
        if well_formed(store@) {
            lemma_unsynced_in_order(store@.queue);
        }
    }
    r
}

/// How many events are not synced.
pub fn unsynced_count(store: &Store) -> (n: usize)
    ensures
        n == unsynced(store@.queue).len(),
{
    let r = fetch_unsynced_events(store);
    assert(event_views(r@).len() == r@.len());
    r.len()
}

/// Takes the events that are not synced off the queue and says how many they
/// were.
pub fn clear_unsynced_events(store: &mut Store) -> (removed: usize)
    ensures
        well_formed(old(store)@) ==> well_formed(final(store)@),
        final(store)@ == (StoreView { queue: synced(old(store)@.queue), ..old(store)@ }),
        removed == unsynced(old(store)@.queue).len(),
{
    let ghost q = event_views(store.events@);
    let mut kept: Vec<Event> = Vec::new();
    let mut removed: usize = 0;
    let mut i: usize = 0;
    assert(q.take(0) =~= Seq::<EventView>::empty());
    assert(event_views(kept@) =~= synced(q.take(0)));
    while i < store.events.len()
        invariant
            i <= store.events.len(),
            q == event_views(store.events@),
            event_views(kept@) == synced(q.take(i as int)),
            removed == unsynced(q.take(i as int)).len(),
            removed <= i,
            store@ == old(store)@,
        decreases store.events.len() - i,
    {
        proof {
            assert(q.take(i + 1).drop_last() =~= q.take(i as int));
            assert(q.take(i + 1).last() == store.events@[i as int]@);
        }
        if store.events[i].is_synced {
            let ghost shown = event_views(kept@);
            kept.push(store.events[i].copy());
            assert(event_views(kept@) =~= shown.push(store.events@[i as int]@));
        } else {
            removed += 1;
        }
        i += 1;
    }
    assert(q.take(store.events.len() as int) =~= q);
    store.events = kept;
    proof {
        if well_formed(old(store)@) {
            lemma_clear_keeps_order(old(store)@);
        }
    }
    removed
}

/// Marks the events whose id is in `ids` as synced.
pub fn mark_events_synced(store: &mut Store, ids: &[i64])
    ensures
        well_formed(old(store)@) ==> well_formed(final(store)@),
        final(store)@ == (StoreView { queue: marked(old(store)@.queue, ids@), ..old(store)@ }),
{
    let ghost q = event_views(store.events@);
    let mut out: Vec<Event> = Vec::new();
    let mut i: usize = 0;
    while i < store.events.len()
        invariant
            i <= store.events.len(),
            q == event_views(store.events@),
            out@.len() == i,
            forall|j: int| 0 <= j < i ==> (#[trigger] out@[j])@ == marked(q, ids@)[j],
            store@ == old(store)@,
        decreases store.events.len() - i,
    {
        let mut e = store.events[i].copy();
        if holds_id(ids, e.id) {
            e.is_synced = true;
        }
        out.push(e);
        i += 1;
    }
    assert(event_views(out@) =~= marked(q, ids@));
    store.events = out;
    proof {
        if well_formed(old(store)@) {
            lemma_mark_keeps_order(old(store)@, ids@);
        }
    }
}

/// Records credentials for a provider at the time `now`. Where no client id
/// or no client secret is given and the provider has one on record, that one
/// stays.
pub fn save_credential_raw_at(
    store: &mut Store,
    provider: &str,
    json_blob: &str,
    client_id: Option<&str>,
    client_secret: Option<&str>,
    now: i64,
)
    ensures
        well_formed(old(store)@) ==> well_formed(final(store)@),
        final(store)@ == (StoreView {
            credentials: old(store)@.credentials.insert(
                provider@,
                saved_credential(
                    old(store)@,
                    provider@,
                    json_blob@,
                    opt_str(client_id),
                    opt_str(client_secret),
                    now,
                ),
            ),
            ..old(store)@
        }),
{
    let (old_id, old_secret) = match store.credentials.get(provider, "") {
        Some(c) => (copy_opt(&c.client_id), copy_opt(&c.client_secret)),
        None => (None, None),
    };
    let id = given_or_kept(client_id, old_id);
    let secret = given_or_kept(client_secret, old_secret);
    let c = Credential {
        token_json: String::from_str(json_blob),
        client_id: id,
        client_secret: secret,
        last_refreshed: now,
    };
    proof {
        reveal_strlit("");
        assert(""@ =~= Seq::<char>::empty());
    }
    let ghost cv = c@;
    store.credentials.put(String::from_str(provider), String::new(), c);
    assert(store@.credentials =~= old(store)@.credentials.insert(provider@, cv));
}

/// Records credentials for a provider at the time of the call.
pub fn save_credential_raw(
    store: &mut Store,
    provider: &str,
    json_blob: &str,
    client_id: Option<&str>,
    client_secret: Option<&str>,
)
    ensures
        well_formed(old(store)@) ==> well_formed(final(store)@),
        exists|now: i64|
            final(store)@ == (StoreView {
                credentials: old(store)@.credentials.insert(
                    provider@,
                    #[trigger] saved_credential(
                        old(store)@,
                        provider@,
                        json_blob@,
                        opt_str(client_id),
                        opt_str(client_secret),
                        now,
                    ),
                ),
                ..old(store)@
            }),
{
    let now = now_secs();
    save_credential_raw_at(store, provider, json_blob, client_id, client_secret, now)
}

/// The token and the client's id and secret on record for a provider.
pub fn load_credential_with_client(store: &Store, provider: &str) -> (r: Option<
    (String, Option<String>, Option<String>),
>)
    ensures
        match r {
            Some((token, id, secret)) => store@.credentials.contains_key(provider@) && {
                let c = store@.credentials[provider@];
                token@ == c.token_json && opt_text(id) == c.client_id && opt_text(secret)
                    == c.client_secret
            },
            None => !store@.credentials.contains_key(provider@),
        },
{
    proof {
        reveal_strlit("");
        assert(""@ =~= Seq::<char>::empty());
    }
    match store.credentials.get(provider, "") {
        Some(c) => Some((c.token_json.clone(), copy_opt(&c.client_id), copy_opt(&c.client_secret))),
        None => None,
    }
}

/// The remote id on record for a playlist on a provider.
pub fn get_remote_playlist_id(store: &Store, provider: &str, playlist_name: &str) -> (r: Option<
    String,
>)
    ensures
        match r {
            Some(id) => store@.playlist_map.contains_key((provider@, playlist_name@))
                && store@.playlist_map[(provider@, playlist_name@)].remote_id == id@,
            None => !store@.playlist_map.contains_key((provider@, playlist_name@)),
        },
{
    match store.playlist_map.get(provider, playlist_name) {
        Some(e) => Some(e.remote_id.clone()),
        None => None,
    }
}

/// Records the remote id of a playlist on a provider, at the time `now`.
pub fn upsert_playlist_map_at(
    store: &mut Store,
    provider: &str,
    playlist_name: &str,
    remote_id: &str,
    now: i64,
)
    ensures
        well_formed(old(store)@) ==> well_formed(final(store)@),
        final(store)@ == (StoreView {
            playlist_map: old(store)@.playlist_map.insert(
                (provider@, playlist_name@),
                map_entry(remote_id@, now),
            ),
            ..old(store)@
        }),
{
    let e = MapEntry { remote_id: String::from_str(remote_id), last_synced_at: now };
    let ghost ev = e@;
    store.playlist_map.put(String::from_str(provider), String::from_str(playlist_name), e);
    assert(store@.playlist_map =~= old(store)@.playlist_map.insert(
        (provider@, playlist_name@),
        ev,
    ));
}

/// Records the remote id of a playlist on a provider, at the time of the
/// call.
pub fn upsert_playlist_map(store: &mut Store, provider: &str, playlist_name: &str, remote_id: &str)
    ensures
        well_formed(old(store)@) ==> well_formed(final(store)@),
        exists|now: i64|
            final(store)@ == (StoreView {
                playlist_map: old(store)@.playlist_map.insert(
                    (provider@, playlist_name@),
                    #[trigger] map_entry(remote_id@, now),
                ),
                ..old(store)@
            }),
{
    let now = now_secs();
    upsert_playlist_map_at(store, provider, playlist_name, remote_id, now)
}

/// Forgets the remote id of a playlist on a provider.
pub fn delete_playlist_map(store: &mut Store, provider: &str, playlist_name: &str)
    ensures
        well_formed(old(store)@) ==> well_formed(final(store)@),
        final(store)@ == (StoreView {
            playlist_map: old(store)@.playlist_map.remove((provider@, playlist_name@)),
            ..old(store)@
        }),
{
    store.playlist_map.remove(provider, playlist_name);
    assert(store@.playlist_map =~= old(store)@.playlist_map.remove((provider@, playlist_name@)));
}

/// Moves the remote id of the playlist `from` to the key `to`, at the time
/// `now`.
pub fn migrate_playlist_map_at(store: &mut Store, provider: &str, from: &str, to: &str, now: i64)
    ensures
        well_formed(old(store)@) ==> well_formed(final(store)@),
        final(store)@ == (StoreView {
            playlist_map: migrated(old(store)@.playlist_map, provider@, from@, to@, now),
            ..old(store)@
        }),
{
    let found = match store.playlist_map.get(provider, from) {
        Some(e) => Some(e.remote_id.clone()),
        None => None,
    };
    match found {
        Some(remote_id) => {
            store.playlist_map.remove(provider, from);
            let e = MapEntry { remote_id, last_synced_at: now };
            let ghost ev = e@;
            store.playlist_map.put(String::from_str(provider), String::from_str(to), e);
            assert(store@.playlist_map =~= migrated(
                old(store)@.playlist_map,
                provider@,
                from@,
                to@,
                now,
            ));
        },
        None => {},
    }
}

/// Moves the remote id of the playlist `from` to the key `to`, at the time of
/// the call.
pub fn migrate_playlist_map(store: &mut Store, provider: &str, from: &str, to: &str)
    ensures
        well_formed(old(store)@) ==> well_formed(final(store)@),
        exists|now: i64|
            final(store)@ == (StoreView {
                playlist_map: #[trigger] migrated(
                    old(store)@.playlist_map,
                    provider@,
                    from@,
                    to@,
                    now,
                ),
                ..old(store)@
            }),
{
    let now = now_secs();
    migrate_playlist_map_at(store, provider, from, to, now)
}

/// The ISRC and the remote URI on record for a local track on a provider.
pub fn get_track_cache_by_local(store: &Store, provider: &str, local_path: &str) -> (r: Option<
    (Option<String>, Option<String>),
>)
    ensures
        match r {
            Some((isrc, uri)) => store@.track_cache.contains_key((provider@, local_path@)) && {
                let c = store@.track_cache[(provider@, local_path@)];
                opt_text(isrc) == c.isrc && opt_text(uri) == c.remote_uri
            },
            None => !store@.track_cache.contains_key((provider@, local_path@)),
        },
{
    match store.track_cache.get(provider, local_path) {
        Some(c) => Some((copy_opt(&c.isrc), copy_opt(&c.remote_uri))),
        None => None,
    }
}

/// Records the ISRC and the remote URI of a local track on a provider, at the
/// time `now`.
pub fn upsert_track_cache_at(
    store: &mut Store,
    provider: &str,
    local_path: &str,
    isrc: Option<&str>,
    remote_id: Option<&str>,
    now: i64,
)
    ensures
        well_formed(old(store)@) ==> well_formed(final(store)@),
        final(store)@ == (StoreView {
            track_cache: old(store)@.track_cache.insert(
                (provider@, local_path@),
                cache_entry(opt_str(isrc), opt_str(remote_id), now),
            ),
            ..old(store)@
        }),
{
    let c = CacheEntry { isrc: owned(isrc), remote_uri: owned(remote_id), resolved_at: now };
    let ghost cv = c@;
    store.track_cache.put(String::from_str(provider), String::from_str(local_path), c);
    assert(store@.track_cache =~= old(store)@.track_cache.insert((provider@, local_path@), cv));
}

/// Records the ISRC and the remote URI of a local track on a provider, at the
/// time of the call.
pub fn upsert_track_cache(
    store: &mut Store,
    provider: &str,
    local_path: &str,
    isrc: Option<&str>,
    remote_id: Option<&str>,
)
    ensures
        well_formed(old(store)@) ==> well_formed(final(store)@),
        exists|now: i64|
            final(store)@ == (StoreView {
                track_cache: old(store)@.track_cache.insert(
                    (provider@, local_path@),
                    #[trigger] cache_entry(opt_str(isrc), opt_str(remote_id), now),
                ),
                ..old(store)@
            }),
{
    let now = now_secs();
    upsert_track_cache_at(store, provider, local_path, isrc, remote_id, now)
}

/// Asks for the lease on a playlist at the time `now`, for `ttl_seconds`
/// seconds. The lease is given unless one is held, by this worker or another.
pub fn try_acquire_playlist_lock_at(
    store: &mut Store,
    playlist_name: &str,
    worker_id: &str,
    ttl_seconds: i64,
    now: i64,
) -> (acquired: bool)
    ensures
        well_formed(old(store)@) ==> well_formed(final(store)@),
        acquired == !lease_held(old(store)@, playlist_name@, now),
        final(store)@ == after_acquire(old(store)@, playlist_name@, worker_id@, ttl_seconds, now),
{
    proof {
        reveal_strlit("");
        assert(""@ =~= Seq::<char>::empty());
    }
    let expiry = match store.locks.get(playlist_name, "") {
        Some(l) => Some(l.expires_at),
        None => None,
    };
    if lease_blocks(expiry, now) {
        return false;
    }
    let l = Lease {
        worker_id: String::from_str(worker_id),
        locked_at: now,
        expires_at: lease_expiry(now, ttl_seconds),
    };
    let ghost lv = l@;
    store.locks.put(String::from_str(playlist_name), String::new(), l);
    assert(store@.locks =~= old(store)@.locks.insert(playlist_name@, lv));
    true
}

/// Asks for the lease on a playlist at the time of the call.
pub fn try_acquire_playlist_lock(
    store: &mut Store,
    playlist_name: &str,
    worker_id: &str,
    ttl_seconds: i64,
) -> (acquired: bool)
    ensures
        well_formed(old(store)@) ==> well_formed(final(store)@),
        exists|now: i64|
            acquired == !lease_held(old(store)@, playlist_name@, now) && final(store)@
                == #[trigger] after_acquire(
                old(store)@,
                playlist_name@,
                worker_id@,
                ttl_seconds,
                now,
            ),
{
    let now = now_secs();
    try_acquire_playlist_lock_at(store, playlist_name, worker_id, ttl_seconds, now)
}

/// Gives back the lease on a playlist, if this worker has it.
pub fn release_playlist_lock(store: &mut Store, playlist_name: &str, worker_id: &str)
    ensures
        well_formed(old(store)@) ==> well_formed(final(store)@),
        final(store)@ == after_release(old(store)@, playlist_name@, worker_id@),
{
    proof {
        reveal_strlit("");
        assert(""@ =~= Seq::<char>::empty());
    }
    let owns = match store.locks.get(playlist_name, "") {
        Some(l) => crate::text::same_str(l.worker_id.as_str(), worker_id),
        None => false,
    };
    if owns {
        store.locks.remove(playlist_name, "");
        assert(store@.locks =~= old(store)@.locks.remove(playlist_name@));
    }
}


/// A response as contracts see it, where there is one.
pub open spec fn opt_response(r: Option<Response>) -> Option<ResponseView> {
    match r {
        Some(a) => Some(a@),
        None => None,
    }
}

/// What the store does on a request at the time `now`, and what it answers.
/// A request that is not for the store leaves it as it is and gets no answer.
pub open spec fn store_answer(s: StoreView, req: RequestView, now: i64) -> (
    StoreView,
    Option<ResponseView>,
) {
    match req {
        RequestView::AcquireLease { playlist, worker, ttl_secs } => (
            after_acquire(s, playlist, worker, ttl_secs, now),
            Some(ResponseView::Flag(!lease_held(s, playlist, now))),
        ),
        RequestView::ReleaseLease { playlist, worker } => (
            after_release(s, playlist, worker),
            Some(ResponseView::Done),
        ),
        RequestView::GetRemoteId { provider, playlist } => (
            s,
            Some(
                ResponseView::Text(
                    if s.playlist_map.contains_key((provider, playlist)) {
                        Some(s.playlist_map[(provider, playlist)].remote_id)
                    } else {
                        None
                    },
                ),
            ),
        ),
        RequestView::UpsertMap { provider, playlist, remote_id } => (
            StoreView {
                playlist_map: s.playlist_map.insert((provider, playlist), map_entry(remote_id, now)),
                ..s
            },
            Some(ResponseView::Done),
        ),
        RequestView::DeleteMap { provider, playlist } => (
            StoreView { playlist_map: s.playlist_map.remove((provider, playlist)), ..s },
            Some(ResponseView::Done),
        ),
        RequestView::MigrateMap { provider, from, to } => (
            StoreView { playlist_map: migrated(s.playlist_map, provider, from, to, now), ..s },
            Some(ResponseView::Done),
        ),
        RequestView::MarkSynced { ids } => (
            StoreView { queue: marked(s.queue, ids), ..s },
            Some(ResponseView::Done),
        ),
        RequestView::CacheLookup { provider, local_path } => (
            s,
            Some(
                if s.track_cache.contains_key((provider, local_path)) {
                    ResponseView::Cached {
                        found: true,
                        isrc: s.track_cache[(provider, local_path)].isrc,
                        uri: s.track_cache[(provider, local_path)].remote_uri,
                    }
                } else {
                    ResponseView::Cached { found: false, isrc: None, uri: None }
                },
            ),
        ),
        RequestView::CacheStore { provider, local_path, isrc, uri } => (
            StoreView {
                track_cache: s.track_cache.insert(
                    (provider, local_path),
                    cache_entry(isrc, uri, now),
                ),
                ..s
            },
            Some(ResponseView::Done),
        ),
        _ => (s, None),
    }
}

fn borrowed(o: &Option<String>) -> (r: Option<&str>)
    ensures
        opt_str(r) == opt_text(*o),
{
    match o {
        Some(s) => Some(s.as_str()),
        None => None,
    }
}

impl Store {
    /// Does what a request asks of the store, at the time `now`, and gives the
    /// answer; `None` for a request that is not for the store.
    pub fn perform_at(&mut self, req: &Request, now: i64) -> (r: Option<Response>)
        ensures
            well_formed(old(self)@) ==> well_formed(final(self)@),
            (final(self)@, opt_response(r)) == store_answer(old(self)@, req@, now),
    {
        match req {
            Request::AcquireLease { playlist, worker, ttl_secs } => {
                let got = try_acquire_playlist_lock_at(
                    self,
                    playlist.as_str(),
                    worker.as_str(),
                    *ttl_secs,
                    now,
                );
                Some(Response::Flag(got))
            },
            Request::ReleaseLease { playlist, worker } => {
                release_playlist_lock(self, playlist.as_str(), worker.as_str());
                Some(Response::Done)
            },
            Request::GetRemoteId { provider, playlist } => {
                let id = get_remote_playlist_id(self, provider.as_str(), playlist.as_str());
                Some(Response::Text(id))
            },
            Request::UpsertMap { provider, playlist, remote_id } => {
                upsert_playlist_map_at(
                    self,
                    provider.as_str(),
                    playlist.as_str(),
                    remote_id.as_str(),
                    now,
                );
                Some(Response::Done)
            },
            Request::DeleteMap { provider, playlist } => {
                delete_playlist_map(self, provider.as_str(), playlist.as_str());
                Some(Response::Done)
            },
            Request::MigrateMap { provider, from, to } => {
                migrate_playlist_map_at(self, provider.as_str(), from.as_str(), to.as_str(), now);
                Some(Response::Done)
            },
            Request::MarkSynced { ids } => {
                mark_events_synced(self, ids.as_slice());
                Some(Response::Done)
            },
            Request::CacheLookup { provider, local_path } => {
                match get_track_cache_by_local(self, provider.as_str(), local_path.as_str()) {
                    Some((isrc, uri)) => Some(Response::Cached { found: true, isrc, uri }),
                    None => Some(Response::Cached { found: false, isrc: None, uri: None }),
                }
            },
            Request::CacheStore { provider, local_path, isrc, uri } => {
                upsert_track_cache_at(
                    self,
                    provider.as_str(),
                    local_path.as_str(),
                    borrowed(isrc),
                    borrowed(uri),
                    now,
                );
                Some(Response::Done)
            },
            _ => None,
        }
    }

    /// Does what a request asks of the store, at the time of the call.
    pub fn perform(&mut self, req: &Request) -> (r: Option<Response>)
        ensures
            well_formed(old(self)@) ==> well_formed(final(self)@),
            exists|now: i64|
                (final(self)@, opt_response(r)) == #[trigger] store_answer(old(self)@, req@, now),
    {
        let now = now_secs();
        self.perform_at(req, now)
    }
}

/// From the time a worker is given a lease until the time at which it
/// expires, no other request for the lease on that playlist is granted, and
/// the store stays as it is; the holder is that worker.
pub proof fn lemma_lease_is_exclusive(
    s: StoreView,
    playlist: Seq<char>,
    first: Seq<char>,
    second: Seq<char>,
    ttl_first: i64,
    ttl_second: i64,
    t1: i64,
    t2: i64,
)
    requires
        !lease_held(s, playlist, t1),
        t1 <= t2 < clamped_sum(t1, ttl_first),
    ensures
        ({
            let s1 = after_acquire(s, playlist, first, ttl_first, t1);
            &&& lease_held(s1, playlist, t2)
            &&& lease_holder(s1, playlist, t2) == Some(first)
            &&& after_acquire(s1, playlist, second, ttl_second, t2) == s1
        }),
{
}

/// A lease is given back only by the worker that holds it.
pub proof fn lemma_release_needs_holder(
    s: StoreView,
    playlist: Seq<char>,
    worker: Seq<char>,
    now: i64,
)
    requires
        lease_holder(s, playlist, now) is Some,
        lease_holder(s, playlist, now) != Some(worker),
    ensures
        after_release(s, playlist, worker) == s,
{
}

/// A lease that ran out can be taken by any worker, for a time that ends
/// after the present.
pub proof fn lemma_expired_lease_can_be_taken(
    s: StoreView,
    playlist: Seq<char>,
    worker: Seq<char>,
    ttl: i64,
    now: i64,
)
    requires
        s.locks.contains_key(playlist),
        s.locks[playlist].expires_at <= now,
        now < clamped_sum(now, ttl),
    ensures
        lease_holder(after_acquire(s, playlist, worker, ttl, now), playlist, now) == Some(worker),
{
}

/// Saving a new token without a client id and secret keeps those on record.
pub proof fn lemma_refresh_keeps_client(
    s: StoreView,
    provider: Seq<char>,
    token_json: Seq<char>,
    now: i64,
)
    requires
        s.credentials.contains_key(provider),
    ensures
        saved_credential(s, provider, token_json, None, None, now).client_id
            == s.credentials[provider].client_id,
        saved_credential(s, provider, token_json, None, None, now).client_secret
            == s.credentials[provider].client_secret,
        saved_credential(s, provider, token_json, None, None, now).token_json == token_json,
{
}

/// Once a URI is recorded for a track, the next resolution of that track ends
/// with the look into the cache, on the same URI, and asks nothing of the
/// provider.
pub proof fn lemma_resolved_is_reused(
    s: StoreView,
    provider: Seq<char>,
    path: Seq<char>,
    isrc: Option<Seq<char>>,
    uri: Seq<char>,
    saved_at: i64,
    now: i64,
)
    requires
        uri_override(path) is None,
    ensures
        ({
            let s1 = store_answer(
                s,
                RequestView::CacheStore { provider, local_path: path, isrc, uri: Some(uri) },
                saved_at,
            ).0;
            let (r0, q0) = resolver_begin(provider, path);
            let (s2, answer) = store_answer(s1, q0->0, now);
            let (r1, q1) = resolver_next(r0, answer->0);
            &&& q0 == Some(RequestView::CacheLookup { provider, local_path: path })
            &&& s2 == s1
            &&& q1 is None
            &&& r1.stage == ResolveStage::Resolved
            &&& r1.uri == Some(uri)
        }),
{
}

/// Whether the store is well formed: its queue is in order, and every event
/// has an id below the next one to give. The empty store is well formed, and
/// every operation keeps it so.
pub open spec fn well_formed(s: StoreView) -> bool {
    well_numbered(s) && in_order(s.queue)
}

/// Whether a queue is in order: by ascending time and, within one time, by
/// ascending id.
pub open spec fn in_order(q: Seq<EventView>) -> bool {
    forall|i: int, j: int|
        0 <= i < j < q.len() ==> (q[i].timestamp_ms < q[j].timestamp_ms || (q[i].timestamp_ms
            == q[j].timestamp_ms && q[i].id < q[j].id))
}

/// Whether every event of the queue has an id below the next one to give.
pub open spec fn well_numbered(s: StoreView) -> bool {
    forall|i: int| 0 <= i < s.queue.len() ==> (#[trigger] s.queue[i]).id < s.next_id
}

/// Where an event with an id above all others is put in.
pub proof fn lemma_ordered_insert_at(q: Seq<EventView>, e: EventView) -> (p: int)
    ensures
        0 <= p <= q.len(),
        ordered_insert(q, e) == q.insert(p, e),
        forall|i: int| 0 <= i < p ==> q[i].timestamp_ms <= e.timestamp_ms || exists|k: int|
            i < k < p && q[k].timestamp_ms <= e.timestamp_ms,
        p > 0 ==> q[p - 1].timestamp_ms <= e.timestamp_ms,
        forall|i: int| p <= i < q.len() ==> q[i].timestamp_ms > e.timestamp_ms,
    decreases q.len(),
{
    if q.len() == 0 || q.last().timestamp_ms <= e.timestamp_ms {
        assert(q.push(e) =~= q.insert(q.len() as int, e));
        q.len() as int
    } else {
        let rest = q.drop_last();
        let p = lemma_ordered_insert_at(rest, e);
        assert(ordered_insert(rest, e).push(q.last()) =~= q.insert(p, e));
        assert forall|i: int| p <= i < q.len() implies q[i].timestamp_ms > e.timestamp_ms by {
            if i < rest.len() {
                assert(rest[i] == q[i]);
            }
        }
        assert forall|i: int| 0 <= i < p implies q[i].timestamp_ms <= e.timestamp_ms || exists|
            k: int,
        | i < k < p && q[k].timestamp_ms <= e.timestamp_ms by {
            assert(rest[i] == q[i]);
            if !(rest[i].timestamp_ms <= e.timestamp_ms) {
                let k = choose|k: int| i < k < p && rest[k].timestamp_ms <= e.timestamp_ms;
                assert(rest[k] == q[k]);
            }
        }
        if p > 0 {
            assert(rest[p - 1] == q[p - 1]);
        }
        p
    }
}

/// A queue in order stays in order when an event is put in whose id is above
/// all ids of the queue.
pub proof fn lemma_ordered_insert(q: Seq<EventView>, e: EventView)
    requires
        in_order(q),
        forall|i: int| 0 <= i < q.len() ==> (#[trigger] q[i]).id < e.id,
    ensures
        in_order(ordered_insert(q, e)),
        ordered_insert(q, e).len() == q.len() + 1,
{
    let p = lemma_ordered_insert_at(q, e);
    let r = q.insert(p, e);
    assert forall|i: int, j: int| 0 <= i < j < r.len() implies (r[i].timestamp_ms
        < r[j].timestamp_ms || (r[i].timestamp_ms == r[j].timestamp_ms && r[i].id < r[j].id)) by {
        if j < p {
            assert(r[i] == q[i] && r[j] == q[j]);
        } else if i > p {
            assert(r[i] == q[i - 1] && r[j] == q[j - 1]);
        } else if i == p {
            assert(r[j] == q[j - 1]);
        } else if j == p {
            assert(r[i] == q[i]);
            assert(q[i].id < e.id);
            if p - 1 > i {
                assert(q[i].timestamp_ms < q[p - 1].timestamp_ms || q[i].timestamp_ms
                    == q[p - 1].timestamp_ms);
            }
        } else {
            assert(r[i] == q[i] && r[j] == q[j - 1]);
        }
    }
}

/// The store stays well numbered, with its queue in order, when an event is
/// put on the queue.
pub proof fn lemma_enqueue_keeps_order(s: StoreView, e: EventView)
    requires
        well_numbered(s),
        in_order(s.queue),
        e.id == s.next_id,
        s.next_id < i64::MAX,
    ensures
        ({
            let after = StoreView {
                queue: ordered_insert(s.queue, e),
                next_id: (s.next_id + 1) as i64,
                ..s
            };
            well_numbered(after) && in_order(after.queue)
        }),
{
    lemma_ordered_insert(s.queue, e);
    let p = lemma_ordered_insert_at(s.queue, e);
    let q2 = s.queue.insert(p, e);
    assert forall|i: int| 0 <= i < q2.len() implies (#[trigger] q2[i]).id < s.next_id + 1 by {
        if i < p {
            assert(q2[i] == s.queue[i]);
        } else if i > p {
            assert(q2[i] == s.queue[i - 1]);
        }
    }
}


proof fn lemma_unsynced_from(q: Seq<EventView>, i: int) -> (a: int)
    requires
        0 <= i < unsynced(q).len(),
    ensures
        0 <= a < q.len(),
        q[a] == unsynced(q)[i],
        i == unsynced(q.take(a)).len(),
    decreases q.len(),
{
    let rest = q.drop_last();
    if q.last().is_synced {
        let a = lemma_unsynced_from(rest, i);
        assert(rest.take(a) =~= q.take(a));
        a
    } else if i == unsynced(rest).len() {
        assert(q.take(q.len() - 1) =~= rest);
        q.len() - 1
    } else {
        let a = lemma_unsynced_from(rest, i);
        assert(rest.take(a) =~= q.take(a));
        a
    }
}

proof fn lemma_unsynced_grows(q: Seq<EventView>, a: int, b: int)
    requires
        0 <= a <= b <= q.len(),
    ensures
        unsynced(q.take(a)).len() <= unsynced(q.take(b)).len(),
    decreases b - a,
{
    if a < b {
        lemma_unsynced_grows(q, a, b - 1);
        assert(q.take(b).drop_last() =~= q.take(b - 1));
    }
}

/// The events that are not synced come in the order of the queue: by
/// ascending time and, within one time, by ascending id.
pub proof fn lemma_unsynced_in_order(q: Seq<EventView>)
    requires
        in_order(q),
    ensures
        in_order(unsynced(q)),
{
    let u = unsynced(q);
    assert forall|i: int, j: int| 0 <= i < j < u.len() implies (u[i].timestamp_ms
        < u[j].timestamp_ms || (u[i].timestamp_ms == u[j].timestamp_ms && u[i].id < u[j].id)) by {
        let a = lemma_unsynced_from(q, i);
        let b = lemma_unsynced_from(q, j);
        if b <= a {
            lemma_unsynced_grows(q, b, a);
        }
    }
}


proof fn lemma_synced_from(q: Seq<EventView>, i: int) -> (a: int)
    requires
        0 <= i < synced(q).len(),
    ensures
        0 <= a < q.len(),
        q[a] == synced(q)[i],
        i == synced(q.take(a)).len(),
    decreases q.len(),
{
    let rest = q.drop_last();
    if !q.last().is_synced {
        let a = lemma_synced_from(rest, i);
        assert(rest.take(a) =~= q.take(a));
        a
    } else if i == synced(rest).len() {
        assert(q.take(q.len() - 1) =~= rest);
        q.len() - 1
    } else {
        let a = lemma_synced_from(rest, i);
        assert(rest.take(a) =~= q.take(a));
        a
    }
}

proof fn lemma_synced_grows(q: Seq<EventView>, a: int, b: int)
    requires
        0 <= a <= b <= q.len(),
    ensures
        synced(q.take(a)).len() <= synced(q.take(b)).len(),
    decreases b - a,
{
    if a < b {
        lemma_synced_grows(q, a, b - 1);
        assert(q.take(b).drop_last() =~= q.take(b - 1));
    }
}

/// A well-formed store stays well formed when the events that are not synced
/// are taken off its queue.
pub proof fn lemma_clear_keeps_order(s: StoreView)
    requires
        well_formed(s),
    ensures
        well_formed(StoreView { queue: synced(s.queue), ..s }),
{
    let q = s.queue;
    let u = synced(q);
    assert forall|i: int, j: int| 0 <= i < j < u.len() implies (u[i].timestamp_ms
        < u[j].timestamp_ms || (u[i].timestamp_ms == u[j].timestamp_ms && u[i].id < u[j].id)) by {
        let a = lemma_synced_from(q, i);
        let b = lemma_synced_from(q, j);
        if b <= a {
            lemma_synced_grows(q, b, a);
        }
    }
    assert forall|i: int| 0 <= i < u.len() implies (#[trigger] u[i]).id < s.next_id by {
        let a = lemma_synced_from(q, i);
    }
}

/// A well-formed store stays well formed when events are marked as synced.
pub proof fn lemma_mark_keeps_order(s: StoreView, ids: Seq<i64>)
    requires
        well_formed(s),
    ensures
        well_formed(StoreView { queue: marked(s.queue, ids), ..s }),
{
    let q = s.queue;
    let m = marked(q, ids);
    assert forall|i: int| 0 <= i < m.len() implies (#[trigger] m[i]).id == q[i].id
        && m[i].timestamp_ms == q[i].timestamp_ms by {}
    assert forall|i: int, j: int| 0 <= i < j < m.len() implies (m[i].timestamp_ms
        < m[j].timestamp_ms || (m[i].timestamp_ms == m[j].timestamp_ms && m[i].id < m[j].id)) by {
        assert(m[i].id == q[i].id && m[j].id == q[j].id);
    }
}

} // verus!
