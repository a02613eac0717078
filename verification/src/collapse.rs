//! Collapsing a batch of events of one playlist.
//!
//! A batch is read in order. Each track has at most one pending action: an add
//! after a pending remove, or a remove after a pending add, clears it; any
//! other add or remove sets it. Renames, creations and deletions are kept as
//! they are, in their order. The collapsed batch is the kept events followed by
//! one new event for each track with a pending action.
use crate::clock::now_millis;
use crate::models::{event_views, ActionView, Event, EventAction, EventView};
use vstd::prelude::*;

verus! {

/// Whether an action is one that collapsing keeps as it is.
pub open spec fn is_structural(a: ActionView) -> bool {
    a is Rename || a is Create || a is Delete
}

/// Whether `e` adds or removes the track `t`.
pub open spec fn touches(e: EventView, t: Seq<char>) -> bool {
    e.track_path == Some(t) && (e.action is Add || e.action is Remove)
}

/// The renames, creations and deletions of a batch, in their order.
pub open spec fn kept(b: Seq<EventView>) -> Seq<EventView>
    decreases b.len(),
{
    if b.len() == 0 {
        Seq::empty()
    } else if is_structural(b.last().action) {
        kept(b.drop_last()).push(b.last())
    } else {
        kept(b.drop_last())
    }
}

/// The pending actions after one more event: `true` stands for add, `false`
/// for remove.
pub open spec fn note(m: Map<Seq<char>, bool>, e: EventView) -> Map<Seq<char>, bool> {
    match e.track_path {
        Some(t) => match e.action {
            ActionView::Add => if m.contains_key(t) && !m[t] {
                m.remove(t)
            } else {
                m.insert(t, true)
            },
            ActionView::Remove => if m.contains_key(t) && m[t] {
                m.remove(t)
            } else {
                m.insert(t, false)
            },
            _ => m,
        },
        None => m,
    }
}

/// The pending action of each track after a batch.
pub open spec fn pending(b: Seq<EventView>) -> Map<Seq<char>, bool>
    decreases b.len(),
{
    if b.len() == 0 {
        Map::empty()
    } else {
        note(pending(b.drop_last()), b.last())
    }
}

/// The event that stands for a pending action in a collapsed batch.
pub open spec fn synthetic(path: Seq<char>, add: bool, now: i64) -> EventView {
    EventView {
        id: 0,
        timestamp_ms: now,
        playlist_name: Seq::empty(),
        action: if add {
            ActionView::Add
        } else {
            ActionView::Remove
        },
        track_path: Some(path),
        extra: None,
        is_synced: false,
    }
}

/// Whether `tr[i]` is an event for the track `t`.
pub open spec fn is_for(tr: Seq<EventView>, i: int, t: Seq<char>) -> bool {
    0 <= i < tr.len() && tr[i].track_path == Some(t)
}

/// Whether `tr` holds exactly one synthetic event for each pending action of
/// `m`, in any order, and nothing else.
pub open spec fn lists_pending(tr: Seq<EventView>, m: Map<Seq<char>, bool>, now: i64) -> bool {
    &&& forall|i: int|
        0 <= i < tr.len() ==> {
            &&& (#[trigger] tr[i]).track_path is Some
            &&& m.contains_key(tr[i].track_path->0)
            &&& tr[i] == synthetic(tr[i].track_path->0, m[tr[i].track_path->0], now)
        }
    &&& forall|i: int, j: int|
        0 <= i < j < tr.len() ==> (#[trigger] tr[i]).track_path != (#[trigger] tr[j]).track_path
    &&& forall|t: Seq<char>| #[trigger]
        m.contains_key(t) ==> exists|i: int| is_for(tr, i, t)
}

/// Whether `out` is a collapsed form of the batch `b`, made at time `now`: the
/// kept events of `b` in their order, then the pending actions in any order.
pub open spec fn is_collapse_of(out: Seq<EventView>, b: Seq<EventView>, now: i64) -> bool {
    let k = kept(b).len() as int;
    &&& k <= out.len()
    &&& out.take(k) == kept(b)
    &&& lists_pending(out.skip(k), pending(b), now)
}

/// A pending action while a batch is read.
struct Pending {
    path: String,
    add: bool,
}

/// Whether `st[i]` is the entry for the track `t`.
spec fn entry_for(st: Seq<Pending>, i: int, t: Seq<char>) -> bool {
    0 <= i < st.len() && st[i].path@ == t
}

/// Whether `st` holds exactly the pending actions of `m`, each once.
spec fn tracks(st: Seq<Pending>, m: Map<Seq<char>, bool>) -> bool {
    &&& forall|i: int|
        0 <= i < st.len() ==> m.contains_key((#[trigger] st[i]).path@) && m[st[i].path@]
            == st[i].add
    &&& forall|i: int, j: int|
        0 <= i < j < st.len() ==> (#[trigger] st[i]).path@ != (#[trigger] st[j]).path@
    &&& forall|t: Seq<char>| #[trigger] m.contains_key(t) ==> exists|i: int| entry_for(st, i, t)
}

proof fn lemma_tracks_remove(st: Seq<Pending>, m: Map<Seq<char>, bool>, k: int)
    requires
        tracks(st, m),
        0 <= k < st.len(),
    ensures
        tracks(st.remove(k), m.remove(st[k].path@)),
{
    let st2 = st.remove(k);
    let t = st[k].path@;
    let m2 = m.remove(t);
    assert forall|i: int| 0 <= i < st2.len() implies m2.contains_key((#[trigger] st2[i]).path@)
        && m2[st2[i].path@] == st2[i].add by {
        if i < k {
            assert(st2[i] == st[i]);
        } else {
            assert(st2[i] == st[i + 1]);
        }
    }
    assert forall|i: int, j: int| 0 <= i < j < st2.len() implies (#[trigger] st2[i]).path@ != (
    #[trigger] st2[j]).path@ by {
        let a = if i < k {
            i
        } else {
            i + 1
        };
        let b = if j < k {
            j
        } else {
            j + 1
        };
        assert(st2[i] == st[a]);
        assert(st2[j] == st[b]);
    }
    assert forall|u: Seq<char>| #[trigger] m2.contains_key(u) implies exists|i: int|
        entry_for(st2, i, u) by {
        assert(m.contains_key(u));
        let i = choose|i: int| entry_for(st, i, u);
        if i < k {
            assert(entry_for(st2, i, u));
        } else {
            assert(st2[i - 1] == st[i]);
            assert(entry_for(st2, i - 1, u));
        }
    }
}

proof fn lemma_tracks_push(st: Seq<Pending>, m: Map<Seq<char>, bool>, p: Pending)
    requires
        tracks(st, m),
        !m.contains_key(p.path@),
    ensures
        tracks(st.push(p), m.insert(p.path@, p.add)),
{
    let st2 = st.push(p);
    let m2 = m.insert(p.path@, p.add);
    assert forall|i: int| 0 <= i < st2.len() implies m2.contains_key((#[trigger] st2[i]).path@)
        && m2[st2[i].path@] == st2[i].add by {
        if i < st.len() {
            assert(st2[i] == st[i]);
        }
    }
    assert forall|i: int, j: int| 0 <= i < j < st2.len() implies (#[trigger] st2[i]).path@ != (
    #[trigger] st2[j]).path@ by {
        assert(st2[i] == st[i]);
        if j < st.len() {
            assert(st2[j] == st[j]);
        }
    }
    assert forall|u: Seq<char>| #[trigger] m2.contains_key(u) implies exists|i: int|
        entry_for(st2, i, u) by {
        if u == p.path@ {
            assert(entry_for(st2, st.len() as int, u));
        } else {
            let i = choose|i: int| entry_for(st, i, u);
            assert(st2[i] == st[i]);
            assert(entry_for(st2, i, u));
        }
    }
}

/// Where the entry for `path` stands in `st`, if there is one.
fn position(st: &Vec<Pending>, path: &String) -> (r: Option<usize>)
    ensures
        match r {
            Some(k) => k < st.len() && st@[k as int].path@ == path@,
            None => forall|i: int| 0 <= i < st.len() ==> (#[trigger] st@[i]).path@ != path@,
        },
{
    let mut i: usize = 0;
    while i < st.len()
        invariant
            i <= st.len(),
            forall|j: int| 0 <= j < i ==> (#[trigger] st@[j]).path@ != path@,
        decreases st.len() - i,
    {
        if st[i].path == *path {
            return Some(i);
        }
        i += 1;
    }
    None
}

/// Takes note of an add or a remove of `path`.
fn record(st: &mut Vec<Pending>, path: &String, add: bool, Ghost(m): Ghost<Map<Seq<char>, bool>>)
    requires
        tracks(old(st)@, m),
    ensures
        tracks(
            final(st)@,
            if m.contains_key(path@) && m[path@] != add {
                m.remove(path@)
            } else {
                m.insert(path@, add)
            },
        ),
{
    match position(st, path) {
        Some(k) => {
            if st[k].add != add {
                proof {
                    lemma_tracks_remove(st@, m, k as int);
                }
                st.remove(k);
            } else {
                assert(m.insert(path@, add) =~= m);
            }
        },
        None => {
            proof {
                if m.contains_key(path@) {
                    let i = choose|i: int| entry_for(st@, i, path@);
                    assert(st@[i].path@ == path@);
                }
            }
            let p = Pending { path: path.clone(), add };
            proof {
                lemma_tracks_push(st@, m, p);
            }
            st.push(p);
        },
    }
}

/// Collapses a batch of events of one playlist; the events made for pending
/// actions carry the time `now_ms`.
pub fn collapse_events_at(events: &[Event], now_ms: i64) -> (out: Vec<Event>)
    ensures
        is_collapse_of(event_views(out@), event_views(events@), now_ms),
{
    let ghost b = event_views(events@);
    let mut state: Vec<Pending> = Vec::new();
    let mut out: Vec<Event> = Vec::new();
    let mut i: usize = 0;
    assert(event_views(out@) =~= kept(b.take(0)));
    while i < events.len()
        invariant
            i <= events.len(),
            b == event_views(events@),
            event_views(out@) == kept(b.take(i as int)),
            tracks(state@, pending(b.take(i as int))),
        decreases events.len() - i,
    {
        let ev = &events[i];
        let ghost before = b.take(i as int);
        let ghost m = pending(before);
        proof {
            assert(b.take(i + 1).drop_last() =~= before);
            assert(b.take(i + 1).last() == ev@);
        }
        match &ev.action {
            EventAction::Add => {
                if let Some(tp) = &ev.track_path {
                    record(&mut state, tp, true, Ghost(m));
                }
            },
            EventAction::Remove => {
                if let Some(tp) = &ev.track_path {
                    record(&mut state, tp, false, Ghost(m));
                }
            },
            _ => {
                let ghost shown = event_views(out@);
                out.push(ev.copy());
                assert(event_views(out@) =~= shown.push(ev@));
            },
        }
        i += 1;
    }
    assert(b.take(events.len() as int) =~= b);
    let k = out.len();
    let ghost m = pending(b);
    let mut j: usize = 0;
    assert(event_views(out@).take(k as int) =~= kept(b));
    while j < state.len()
        invariant
            j <= state.len(),
            k == kept(b).len(),
            out.len() == k + j,
            tracks(state@, m),
            event_views(out@).take(k as int) == kept(b),
            forall|q: int|
                0 <= q < j ==> (#[trigger] event_views(out@)[k + q]) == synthetic(
                    state@[q].path@,
                    state@[q].add,
                    now_ms,
                ),
        decreases state.len() - j,
    {
        let ghost shown = event_views(out@);
        let p = &state[j];
        let action = if p.add {
            EventAction::Add
        } else {
            EventAction::Remove
        };
        let e = Event {
            id: 0,
            timestamp_ms: now_ms,
            playlist_name: String::new(),
            action,
            track_path: Some(p.path.clone()),
            extra: None,
            is_synced: false,
        };
        assert(e@ == synthetic(p.path@, p.add, now_ms));
        out.push(e);
        proof {
            assert(event_views(out@) =~= shown.push(e@));
            assert(event_views(out@).take(k as int) =~= shown.take(k as int));
            assert forall|q: int| 0 <= q < j + 1 implies (#[trigger] event_views(out@)[k + q])
                == synthetic(state@[q].path@, state@[q].add, now_ms) by {
                if q < j {
                    assert(event_views(out@)[k + q] == shown[k + q]);
                }
            }
        }
        j += 1;
    }
    proof {
        let o = event_views(out@);
        let tr = o.skip(k as int);
        assert forall|q: int| 0 <= q < tr.len() implies {
            &&& (#[trigger] tr[q]).track_path is Some
            &&& m.contains_key(tr[q].track_path->0)
            &&& tr[q] == synthetic(tr[q].track_path->0, m[tr[q].track_path->0], now_ms)
        } by {
            assert(tr[q] == o[k + q]);
            assert(m.contains_key(state@[q].path@));
        }
        assert forall|p: int, q: int| 0 <= p < q < tr.len() implies (#[trigger] tr[p]).track_path
            != (#[trigger] tr[q]).track_path by {
            assert(tr[p] == o[k + p]);
            assert(tr[q] == o[k + q]);
            assert(state@[p].path@ != state@[q].path@);
        }
        assert forall|t: Seq<char>| #[trigger] m.contains_key(t) implies exists|q: int|
            is_for(tr, q, t) by {
            let q = choose|q: int| entry_for(state@, q, t);
            assert(tr[q] == o[k + q]);
            assert(is_for(tr, q, t));
        }
    }
    out
}

/// Collapses a batch of events of one playlist. The events made for pending
/// actions carry the time of the call.
pub fn collapse_events(events: &[Event]) -> (out: Vec<Event>)
    ensures
        exists|now: i64| is_collapse_of(event_views(out@), event_views(events@), now),
{
    let now = now_millis();
    collapse_events_at(events, now)
}

/// The tracks on a playlist after one event.
pub open spec fn apply_event(s: Set<Seq<char>>, e: EventView) -> Set<Seq<char>> {
    match e.track_path {
        Some(t) => match e.action {
            ActionView::Add => s.insert(t),
            ActionView::Remove => s.remove(t),
            _ => s,
        },
        None => s,
    }
}

/// The tracks on a playlist that held `s`, after the events of `b` in order.
pub open spec fn apply_events(s: Set<Seq<char>>, b: Seq<EventView>) -> Set<Seq<char>>
    decreases b.len(),
{
    if b.len() == 0 {
        s
    } else {
        apply_event(apply_events(s, b.drop_last()), b.last())
    }
}

/// The last add (`true`) or remove (`false`) of the track `t` in `b`.
pub open spec fn last_op(b: Seq<EventView>, t: Seq<char>) -> Option<bool>
    decreases b.len(),
{
    if b.len() == 0 {
        None
    } else if touches(b.last(), t) {
        Some(b.last().action is Add)
    } else {
        last_op(b.drop_last(), t)
    }
}

/// Whether the batch adds or removes `t` and yet leaves no action pending for
/// it.
pub open spec fn cancelled(b: Seq<EventView>, t: Seq<char>) -> bool {
    last_op(b, t) is Some && !pending(b).contains_key(t)
}

/// After a batch, a track is on the playlist if the batch last added it, off
/// if it last removed it, and where it was if the batch did neither.
pub proof fn lemma_apply_events(s: Set<Seq<char>>, b: Seq<EventView>, t: Seq<char>)
    ensures
        apply_events(s, b).contains(t) == match last_op(b, t) {
            Some(add) => add,
            None => s.contains(t),
        },
    decreases b.len(),
{
    if b.len() > 0 {
        lemma_apply_events(s, b.drop_last(), t);
    }
}

/// A pending action is the last one that the batch holds for its track.
pub proof fn lemma_pending_is_last(b: Seq<EventView>, t: Seq<char>)
    ensures
        pending(b).contains_key(t) ==> last_op(b, t) == Some(pending(b)[t]),
    decreases b.len(),
{
    if b.len() > 0 {
        lemma_pending_is_last(b.drop_last(), t);
    }
}

proof fn lemma_kept_structural(b: Seq<EventView>)
    ensures
        forall|i: int| 0 <= i < kept(b).len() ==> is_structural((#[trigger] kept(b)[i]).action),
    decreases b.len(),
{
    if b.len() > 0 {
        lemma_kept_structural(b.drop_last());
    }
}

proof fn lemma_last_op_structural(kp: Seq<EventView>, t: Seq<char>)
    requires
        forall|i: int| 0 <= i < kp.len() ==> is_structural((#[trigger] kp[i]).action),
    ensures
        last_op(kp, t) is None,
    decreases kp.len(),
{
    if kp.len() > 0 {
        assert(is_structural(kp[kp.len() - 1].action));
        assert forall|i: int| 0 <= i < kp.drop_last().len() implies is_structural(
            (#[trigger] kp.drop_last()[i]).action,
        ) by {
            assert(kp.drop_last()[i] == kp[i]);
        }
        lemma_last_op_structural(kp.drop_last(), t);
    }
}

proof fn lemma_last_op_listing(
    kp: Seq<EventView>,
    tr: Seq<EventView>,
    m: Map<Seq<char>, bool>,
    now: i64,
    t: Seq<char>,
)
    requires
        forall|i: int| 0 <= i < kp.len() ==> is_structural((#[trigger] kp[i]).action),
        lists_pending(tr, m, now),
    ensures
        last_op(kp + tr, t) == if m.contains_key(t) {
            Some(m[t])
        } else {
            None
        },
    decreases tr.len(),
{
    if tr.len() == 0 {
        assert(kp + tr =~= kp);
        lemma_last_op_structural(kp, t);
        if m.contains_key(t) {
            let i = choose|i: int| is_for(tr, i, t);
            assert(is_for(tr, i, t));
        }
    } else {
        let e = tr.last();
        let p = e.track_path->0;
        let rest = tr.drop_last();
        let m2 = m.remove(p);
        assert((kp + tr).drop_last() =~= kp + rest);
        assert((kp + tr).last() == e);
        assert(e == tr[tr.len() - 1]);
        assert forall|i: int| 0 <= i < rest.len() implies {
            &&& (#[trigger] rest[i]).track_path is Some
            &&& m2.contains_key(rest[i].track_path->0)
            &&& rest[i] == synthetic(rest[i].track_path->0, m2[rest[i].track_path->0], now)
        } by {
            assert(rest[i] == tr[i]);
            assert(tr[i].track_path != tr[tr.len() - 1].track_path);
        }
        assert forall|i: int, j: int| 0 <= i < j < rest.len() implies (
        #[trigger] rest[i]).track_path != (#[trigger] rest[j]).track_path by {
            assert(rest[i] == tr[i]);
            assert(rest[j] == tr[j]);
        }
        assert forall|u: Seq<char>| #[trigger] m2.contains_key(u) implies exists|i: int|
            is_for(rest, i, u) by {
            assert(m.contains_key(u));
            let i = choose|i: int| is_for(tr, i, u);
            assert(is_for(tr, i, u));
            assert(i != tr.len() - 1);
            assert(rest[i] == tr[i]);
            assert(is_for(rest, i, u));
        }
        lemma_last_op_listing(kp, rest, m2, now, t);
        if p == t {
            assert(touches(e, t));
        } else {
            assert(!touches(e, t));
        }
    }
}

/// Applying a collapsed batch leaves the same tracks on the playlist as
/// applying the batch itself, where each track whose actions cancelled out is
/// on the playlist at the start exactly if the batch last added it.
pub proof fn lemma_collapse_keeps_tracks(
    start: Set<Seq<char>>,
    batch: Seq<EventView>,
    out: Seq<EventView>,
    now: i64,
)
    requires
        is_collapse_of(out, batch, now),
        forall|t: Seq<char>| #[trigger]
            cancelled(batch, t) ==> (start.contains(t) <==> last_op(batch, t) == Some(true)),
    ensures
        apply_events(start, out) == apply_events(start, batch),
{
    let k = kept(batch).len() as int;
    let kp = out.take(k);
    let tr = out.skip(k);
    let m = pending(batch);
    assert(out =~= kp + tr);
    lemma_kept_structural(batch);
    assert forall|t: Seq<char>| apply_events(start, out).contains(t) == apply_events(
        start,
        batch,
    ).contains(t) by {
        lemma_apply_events(start, out, t);
        lemma_apply_events(start, batch, t);
        lemma_last_op_listing(kp, tr, m, now, t);
        lemma_pending_is_last(batch, t);
        if !m.contains_key(t) && last_op(batch, t) is Some {
            assert(cancelled(batch, t));
        }
    }
    assert(apply_events(start, out) =~= apply_events(start, batch));
}

/// Events that neither add nor remove `t` leave its pending action as it was.
pub proof fn lemma_pending_untouched(b: Seq<EventView>, y: Seq<EventView>, t: Seq<char>)
    requires
        forall|i: int| 0 <= i < y.len() ==> !touches(#[trigger] y[i], t),
    ensures
        pending(b + y).contains_key(t) == pending(b).contains_key(t),
        pending(b).contains_key(t) ==> pending(b + y)[t] == pending(b)[t],
    decreases y.len(),
{
    if y.len() == 0 {
        assert(b + y =~= b);
    } else {
        let rest = y.drop_last();
        assert((b + y).drop_last() =~= b + rest);
        assert((b + y).last() == y[y.len() - 1]);
        assert(!touches(y[y.len() - 1], t));
        assert forall|i: int| 0 <= i < rest.len() implies !touches(#[trigger] rest[i], t) by {
            assert(rest[i] == y[i]);
        }
        lemma_pending_untouched(b, rest, t);
    }
}

/// An add and a remove of one track, in either order and with no add or remove
/// of that track between them, leave no action pending for it. This holds
/// where no action of the second one's kind was pending before the pair.
pub proof fn lemma_pair_cancels(
    x: Seq<EventView>,
    first: EventView,
    y: Seq<EventView>,
    second: EventView,
    t: Seq<char>,
)
    requires
        touches(first, t),
        touches(second, t),
        first.action is Add <==> second.action is Remove,
        forall|i: int| 0 <= i < y.len() ==> !touches(#[trigger] y[i], t),
        !(pending(x).contains_key(t) && pending(x)[t] == (second.action is Add)),
    ensures
        !pending(x.push(first) + y.push(second)).contains_key(t),
{
    let b1 = x.push(first);
    assert(b1.drop_last() =~= x);
    assert(b1.last() == first);
    assert(pending(b1).contains_key(t) && pending(b1)[t] == (first.action is Add));
    lemma_pending_untouched(b1, y, t);
    let b2 = b1 + y.push(second);
    assert(b2.drop_last() =~= b1 + y);
    assert(b2.last() == second);
}

/// Once no action is pending for a track, what is pending for it after more
/// events depends on those events alone.
pub proof fn lemma_pending_after_clear(b: Seq<EventView>, z: Seq<EventView>, t: Seq<char>)
    requires
        !pending(b).contains_key(t),
    ensures
        pending(b + z).contains_key(t) == pending(z).contains_key(t),
        pending(z).contains_key(t) ==> pending(b + z)[t] == pending(z)[t],
    decreases z.len(),
{
    if z.len() == 0 {
        assert(b + z =~= b);
    } else {
        assert((b + z).drop_last() =~= b + z.drop_last());
        assert((b + z).last() == z.last());
        lemma_pending_after_clear(b, z.drop_last(), t);
    }
}

/// A collapsed batch holds no add or remove of a track for which no action is
/// pending.
pub proof fn lemma_no_pending_no_event(
    out: Seq<EventView>,
    batch: Seq<EventView>,
    now: i64,
    t: Seq<char>,
)
    requires
        is_collapse_of(out, batch, now),
        !pending(batch).contains_key(t),
    ensures
        forall|i: int| 0 <= i < out.len() ==> !touches(#[trigger] out[i], t),
{
    let k = kept(batch).len() as int;
    lemma_kept_structural(batch);
    assert forall|i: int| 0 <= i < out.len() implies !touches(#[trigger] out[i], t) by {
        if i < k {
            assert(out[i] == out.take(k)[i]);
        } else {
            assert(out[i] == out.skip(k)[i - k]);
        }
    }
}


/// The collapsed form of the empty batch is empty.
pub proof fn lemma_empty_batch(out: Seq<EventView>, now: i64)
    requires
        is_collapse_of(out, Seq::<EventView>::empty(), now),
    ensures
        out == Seq::<EventView>::empty(),
{
    let tr = out.skip(0);
    if tr.len() > 0 {
        assert(pending(Seq::<EventView>::empty()).contains_key(tr[0].track_path->0));
    }
    assert(out =~= tr);
}

} // verus!
