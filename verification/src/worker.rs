//! The worker: naming remote playlists and going through the queue.
use crate::collapse::{collapse_events, is_collapse_of};
use crate::config::Config;
use crate::models::{event_views, opt_text, ActionView, Event, EventAction, EventView};
use crate::reconcile::{op_views, Pass, PassView, TrackOp};
use crate::text::{
    chars_of, concat_text, replace_all, replaced, rsplit_once, same_text, split_last, string_of,
    strip_char, stripped, trim, trimmed,
};
use crate::util::{expand_chars, expanded};
use vstd::prelude::*;

verus! {

/// Whether the provider of this name can nest playlists in folders. The one
/// named `tidal` cannot.
pub open spec fn supports_folders(provider_name: Seq<char>) -> bool {
    provider_name != "tidal"@
}

/// Tests whether the provider of this name can nest playlists in folders.
pub fn provider_supports_folder_nesting(provider_name: &str) -> (r: bool)
    ensures
        r == supports_folders(provider_name@),
{
    !same_text(&chars_of(provider_name), &chars_of("tidal"))
}

/// A playlist key with `/` for each `\` and without `/` at its ends.
pub open spec fn normalized_key(key: Seq<char>) -> Seq<char> {
    stripped(replaced(key, seq!['\\'], seq!['/']), '/')
}

/// The part of a normalized key before its last segment; empty if it has one
/// segment only.
pub open spec fn key_parent(normalized: Seq<char>) -> Seq<char> {
    match split_last(normalized, '/') {
        Some((p, f)) => p,
        None => Seq::empty(),
    }
}

/// The last segment of a normalized key.
pub open spec fn key_folder_name(normalized: Seq<char>) -> Seq<char> {
    match split_last(normalized, '/') {
        Some((p, f)) => f,
        None => normalized,
    }
}

/// `s` followed by `/` if `s` is not empty, else the empty text.
pub open spec fn with_slash(s: Seq<char>) -> Seq<char> {
    if s.len() > 0 {
        s.push('/')
    } else {
        s
    }
}

/// Whether playlists are named by folders: the configuration asks for it and
/// the provider can do it.
pub open spec fn folder_style(cfg: Config, provider_name: Seq<char>) -> bool {
    cfg.online_playlist_structure@ == "folders"@ && supports_folders(provider_name)
}

/// The template that names remote playlists: the one for the structure in
/// use if it is not empty, else the general one.
pub open spec fn chosen_template(cfg: Config, provider_name: Seq<char>) -> Seq<char> {
    let special = if folder_style(cfg, provider_name) {
        cfg.remote_playlist_template_folders@
    } else {
        cfg.remote_playlist_template_flat@
    };
    if special.len() > 0 {
        special
    } else {
        cfg.remote_playlist_template@
    }
}

/// The path from the online root to the parent of the playlist's folder, each
/// segment followed by a separator: `/`, or the flattening delimiter where
/// naming is flat and a delimiter is configured.
pub open spec fn remote_path_to_parent(
    cfg: Config,
    provider_name: Seq<char>,
    key: Seq<char>,
) -> Seq<char> {
    let fs = with_slash(trimmed(cfg.online_root_playlist@)) + with_slash(
        key_parent(normalized_key(key)),
    );
    if !folder_style(cfg, provider_name) && cfg.online_folder_flattening_delimiter@.len() > 0 {
        replaced(fs, seq!['/'], cfg.online_folder_flattening_delimiter@)
    } else {
        fs
    }
}

/// The name of the remote playlist for the playlist key `key` on the provider
/// `provider_name`: the chosen template expanded, or, where no template is
/// configured, the path to the parent followed by the folder's name.
pub open spec fn remote_name(cfg: Config, provider_name: Seq<char>, key: Seq<char>) -> Seq<char> {
    let folder_name = key_folder_name(normalized_key(key));
    let path_to_parent = remote_path_to_parent(cfg, provider_name, key);
    let template = chosen_template(cfg, provider_name);
    if template.len() == 0 {
        path_to_parent + folder_name
    } else {
        expanded(template, folder_name, path_to_parent)
    }
}

fn with_slash_chars(s: Vec<char>) -> (r: Vec<char>)
    ensures
        r@ == with_slash(s@),
{
    let mut s = s;
    if s.len() > 0 {
        s.push('/');
    }
    s
}

/// Computes the name of the remote playlist for a playlist key on a provider.
pub fn compute_remote_playlist_name(cfg: &Config, provider_name: &str, playlist_key: &str) -> (r:
    String)
    ensures
        r@ == remote_name(*cfg, provider_name@, playlist_key@),
{
    let root = trim(&chars_of(cfg.online_root_playlist.as_str()));
    let delim = chars_of(cfg.online_folder_flattening_delimiter.as_str());
    let supports = provider_supports_folder_nesting(provider_name);
    let mut backslash: Vec<char> = Vec::new();
    backslash.push('\\');
    let mut slash: Vec<char> = Vec::new();
    slash.push('/');
    assert(backslash@ =~= seq!['\\']);
    assert(slash@ =~= seq!['/']);
    let normalized = strip_char(&replace_all(&chars_of(playlist_key), &backslash, &slash), '/');
    let (parent_rel, folder_name) = match rsplit_once(&normalized, '/') {
        Some((p, f)) => (p, f),
        None => (Vec::new(), normalized),
    };
    let fs = concat_text(&with_slash_chars(root), &with_slash_chars(parent_rel));
    let is_folder_style = same_text(
        &chars_of(cfg.online_playlist_structure.as_str()),
        &chars_of("folders"),
    ) && supports;
    let special = if is_folder_style {
        chars_of(cfg.remote_playlist_template_folders.as_str())
    } else {
        chars_of(cfg.remote_playlist_template_flat.as_str())
    };
    let template = if special.len() > 0 {
        special
    } else {
        chars_of(cfg.remote_playlist_template.as_str())
    };
    let path_to_parent = if !is_folder_style && delim.len() > 0 {
        replace_all(&fs, &slash, &delim)
    } else {
        fs
    };
    if template.len() == 0 {
        string_of(&concat_text(&path_to_parent, &folder_name))
    } else {
        string_of(&expand_chars(&template, &folder_name, &path_to_parent))
    }
}


/// The key that the last rename of a batch renames the playlist to.
pub open spec fn rename_target_of(b: Seq<EventView>) -> Option<Seq<char>>
    decreases b.len(),
{
    if b.len() == 0 {
        None
    } else {
        match b.last().action {
            ActionView::Rename { from, to } => Some(to),
            _ => rename_target_of(b.drop_last()),
        }
    }
}

/// Whether a batch holds a deletion of the playlist.
pub open spec fn has_delete_of(b: Seq<EventView>) -> bool
    decreases b.len(),
{
    if b.len() == 0 {
        false
    } else {
        b.last().action is Delete || has_delete_of(b.drop_last())
    }
}

/// The adds (`true`) and removes (`false`) of tracks in a batch, in order.
/// An add or a remove without a track is left out.
pub open spec fn track_ops_of(b: Seq<EventView>) -> Seq<(bool, Seq<char>)>
    decreases b.len(),
{
    if b.len() == 0 {
        Seq::empty()
    } else {
        let e = b.last();
        let rest = track_ops_of(b.drop_last());
        match e.track_path {
            Some(path) => match e.action {
                ActionView::Add => rest.push((true, path)),
                ActionView::Remove => rest.push((false, path)),
                _ => rest,
            },
            None => rest,
        }
    }
}

/// The ids of the events of a batch, in order.
pub open spec fn ids_of(b: Seq<EventView>) -> Seq<i64> {
    b.map_values(|e: EventView| e.id)
}

/// The seconds for which a pass holds the lease on its playlist.
pub open spec fn lease_seconds() -> i64 {
    600
}

/// The pass for the playlist `playlist` on the provider `provider`, where
/// `events` is the batch and `collapsed` its collapsed form.
pub open spec fn planned(
    cfg: Config,
    provider: Seq<char>,
    playlist: Seq<char>,
    worker: Seq<char>,
    events: Seq<EventView>,
    collapsed: Seq<EventView>,
) -> PassView {
    PassView {
        playlist,
        provider,
        worker,
        display_name: remote_name(cfg, provider, playlist),
        rename_to: rename_target_of(collapsed),
        rename_name: match rename_target_of(collapsed) {
            Some(to) => remote_name(cfg, provider, to),
            None => Seq::empty(),
        },
        has_delete: has_delete_of(collapsed),
        track_ops: track_ops_of(collapsed),
        event_ids: ids_of(events),
        max_retries: cfg.max_retries_on_error,
        batch_size: cfg.max_batch_size_spotify,
        lease_ttl: lease_seconds(),
    }
}

/// Prepares the pass for one playlist and one provider from a batch of events
/// and its collapsed form.
pub fn plan_pass_from(
    cfg: &Config,
    provider: &str,
    playlist: &str,
    worker: &str,
    events: &[Event],
    collapsed: &[Event],
) -> (r: Pass)
    ensures
        r@ == planned(
            *cfg,
            provider@,
            playlist@,
            worker@,
            event_views(events@),
            event_views(collapsed@),
        ),
{
    let ghost b = event_views(events@);
    let ghost c = event_views(collapsed@);
    let mut rename_to: Option<String> = None;
    let mut has_delete = false;
    let mut track_ops: Vec<TrackOp> = Vec::new();
    let mut i: usize = 0;
    assert(c.take(0) =~= Seq::<EventView>::empty());
    assert(op_views(track_ops@) =~= track_ops_of(c.take(0)));
    while i < collapsed.len()
        invariant
            i <= collapsed.len(),
            c == event_views(collapsed@),
            opt_text(rename_to) == rename_target_of(c.take(i as int)),
            has_delete == has_delete_of(c.take(i as int)),
            op_views(track_ops@) == track_ops_of(c.take(i as int)),
        decreases collapsed.len() - i,
    {
        let e = &collapsed[i];
        proof {
            assert(c.take(i + 1).drop_last() =~= c.take(i as int));
            assert(c.take(i + 1).last() == e@);
        }
        let ghost shown = op_views(track_ops@);
        match &e.action {
            EventAction::Rename { from, to } => {
                rename_to = Some(to.clone());
            },
            EventAction::Delete => {
                has_delete = true;
            },
            EventAction::Add => {
                if let Some(path) = &e.track_path {
                    track_ops.push(TrackOp { add: true, path: path.clone() });
                    assert(op_views(track_ops@) =~= shown.push((true, path@)));
                }
            },
            EventAction::Remove => {
                if let Some(path) = &e.track_path {
                    track_ops.push(TrackOp { add: false, path: path.clone() });
                    assert(op_views(track_ops@) =~= shown.push((false, path@)));
                }
            },
            EventAction::Create => {},
        }
        i += 1;
    }
    assert(c.take(collapsed.len() as int) =~= c);
    let mut event_ids: Vec<i64> = Vec::new();
    let mut j: usize = 0;
    while j < events.len()
        invariant
            j <= events.len(),
            b == event_views(events@),
            event_ids@.len() == j,
            forall|k: int| 0 <= k < j ==> event_ids@[k] == b[k].id,
        decreases events.len() - j,
    {
        event_ids.push(events[j].id);
        j += 1;
    }
    assert(event_ids@ =~= ids_of(b));
    let rename_name = match &rename_to {
        Some(to) => compute_remote_playlist_name(cfg, provider, to.as_str()),
        None => String::new(),
    };
    Pass {
        playlist: String::from_str(playlist),
        provider: String::from_str(provider),
        worker: String::from_str(worker),
        display_name: compute_remote_playlist_name(cfg, provider, playlist),
        rename_to,
        rename_name,
        has_delete,
        track_ops,
        event_ids,
        max_retries: cfg.max_retries_on_error,
        batch_size: cfg.max_batch_size_spotify,
        lease_ttl: 600,
    }
}

/// Prepares the pass for one playlist and one provider from a batch of
/// events, which it collapses.
pub fn plan_pass(cfg: &Config, provider: &str, playlist: &str, worker: &str, events: &[Event]) -> (r:
    Pass)
    ensures
        exists|collapsed: Seq<EventView>, now: i64| #[trigger]
            is_collapse_of(collapsed, event_views(events@), now) && r@ == planned(
                *cfg,
                provider@,
                playlist@,
                worker@,
                event_views(events@),
                collapsed,
            ),
{
    let collapsed = collapse_events(events);
    plan_pass_from(cfg, provider, playlist, worker, events, collapsed.as_slice())
}

/// Whether the worker goes through the queue: there are events, there is a
/// provider to send them to, and the queue is no longer than the threshold,
/// where one is set.
pub open spec fn consumes(queue_len: int, threshold: Option<u64>, providers: int) -> bool {
    &&& queue_len > 0
    &&& providers > 0
    &&& match threshold {
        Some(t) => queue_len <= t,
        None => true,
    }
}

/// Tells whether the worker goes through the queue.
pub fn should_consume(queue_len: usize, threshold: Option<u64>, providers: usize) -> (r: bool)
    ensures
        r == consumes(queue_len as int, threshold, providers as int),
{
    if queue_len == 0 || providers == 0 {
        return false;
    }
    match threshold {
        Some(t) => queue_len as u64 <= t,
        None => true,
    }
}

/// The playlists that a queue holds events for, each once, in the order in
/// which they first appear.
pub open spec fn playlists_of(b: Seq<EventView>) -> Seq<Seq<char>>
    decreases b.len(),
{
    if b.len() == 0 {
        Seq::empty()
    } else {
        let rest = playlists_of(b.drop_last());
        if rest.contains(b.last().playlist_name) {
            rest
        } else {
            rest.push(b.last().playlist_name)
        }
    }
}

/// The events of a queue that are for the playlist `key`, in order.
pub open spec fn events_for(b: Seq<EventView>, key: Seq<char>) -> Seq<EventView>
    decreases b.len(),
{
    if b.len() == 0 {
        Seq::empty()
    } else if b.last().playlist_name == key {
        events_for(b.drop_last(), key).push(b.last())
    } else {
        events_for(b.drop_last(), key)
    }
}

/// The events of one playlist.
#[derive(Debug, Clone, PartialEq, Eq)]
pub struct Group {
    pub playlist: String,
    pub events: Vec<Event>,
}

/// Whether `groups` holds the events of `b` by playlist: one group for each
/// playlist, in the order of `playlists_of`, each with its events in order.
pub open spec fn groups_of(groups: Seq<Group>, b: Seq<EventView>) -> bool {
    &&& groups.len() == playlists_of(b).len()
    &&& forall|i: int|
        0 <= i < groups.len() ==> {
            &&& (#[trigger] groups[i]).playlist@ == playlists_of(b)[i]
            &&& event_views(groups[i].events@) == events_for(b, playlists_of(b)[i])
        }
}

proof fn lemma_events_for_new(b: Seq<EventView>, key: Seq<char>)
    requires
        !playlists_of(b).contains(key),
    ensures
        events_for(b, key) == Seq::<EventView>::empty(),
    decreases b.len(),
{
    if b.len() > 0 {
        let rest = playlists_of(b.drop_last());
        if rest.contains(b.last().playlist_name) {
            lemma_events_for_new(b.drop_last(), key);
        } else {
            let full = rest.push(b.last().playlist_name);
            assert(full[full.len() - 1] == b.last().playlist_name);
            if rest.contains(key) {
                let i = choose|i: int| 0 <= i < rest.len() && rest[i] == key;
                assert(full[i] == key);
            }
            lemma_events_for_new(b.drop_last(), key);
        }
    }
}

proof fn lemma_playlists_distinct(b: Seq<EventView>)
    ensures
        forall|i: int, j: int|
            0 <= i < j < playlists_of(b).len() ==> playlists_of(b)[i] != playlists_of(b)[j],
    decreases b.len(),
{
    if b.len() > 0 {
        lemma_playlists_distinct(b.drop_last());
        let rest = playlists_of(b.drop_last());
        let name = b.last().playlist_name;
        if !rest.contains(name) {
            let full = rest.push(name);
            assert forall|i: int, j: int| 0 <= i < j < full.len() implies full[i] != full[j] by {
                if j == rest.len() {
                    assert(full[i] == rest[i]);
                    assert(rest.contains(rest[i]));
                }
            }
        }
    }
}

/// Where the group of the playlist `name` stands.
fn find_group(groups: &Vec<Group>, name: &String) -> (r: Option<usize>)
    ensures
        match r {
            Some(k) => k < groups.len() && groups@[k as int].playlist@ == name@,
            None => forall|j: int| 0 <= j < groups.len() ==> (#[trigger] groups@[j]).playlist@ != name@,
        },
{
    let mut k: usize = 0;
    while k < groups.len()
        invariant
            k <= groups.len(),
            forall|j: int| 0 <= j < k ==> (#[trigger] groups@[j]).playlist@ != name@,
        decreases groups.len() - k,
    {
        if groups[k].playlist == *name {
            return Some(k);
        }
        k += 1;
    }
    None
}

/// Sorts the events of a queue by playlist.
pub fn group_by_playlist(events: &[Event]) -> (groups: Vec<Group>)
    ensures
        groups_of(groups@, event_views(events@)),
{
    let ghost b = event_views(events@);
    let mut groups: Vec<Group> = Vec::new();
    let mut i: usize = 0;
    assert(b.take(0) =~= Seq::<EventView>::empty());
    while i < events.len()
        invariant
            i <= events.len(),
            b == event_views(events@),
            groups_of(groups@, b.take(i as int)),
        decreases events.len() - i,
    {
        let e = &events[i];
        let ghost before = b.take(i as int);
        let ghost after = b.take(i + 1);
        let ghost keys = playlists_of(before);
        let ghost old_groups = groups@;
        proof {
            assert(after.drop_last() =~= before);
            assert(after.last() == e@);
            lemma_playlists_distinct(before);
        }
        let place = find_group(&groups, &e.playlist_name);
        if let Some(k) = place {
            assert(keys[k as int] == e.playlist_name@);
            assert(keys.contains(e.playlist_name@));
            let ghost shown = event_views(groups@[k as int].events@);
            let mut g = groups.remove(k);
            g.events.push(e.copy());
            assert(event_views(g.events@) =~= shown.push(e@));
            groups.insert(k, g);
            proof {
                assert forall|q: int| 0 <= q < groups@.len() implies {
                    &&& (#[trigger] groups@[q]).playlist@ == playlists_of(after)[q]
                    &&& event_views(groups@[q].events@) == events_for(
                        after,
                        playlists_of(after)[q],
                    )
                } by {
                    if q != k {
                        assert(groups@[q] == old_groups[q]);
                        assert(keys[q] != keys[k as int]);
                    }
                }
            }
        } else {
            proof {
                if keys.contains(e.playlist_name@) {
                    let q = choose|q: int| 0 <= q < keys.len() && keys[q] == e.playlist_name@;
                    assert(old_groups[q].playlist@ == keys[q]);
                    assert(false);
                }
                lemma_events_for_new(before, e.playlist_name@);
            }
            let mut evs: Vec<Event> = Vec::new();
            evs.push(e.copy());
            assert(event_views(evs@) =~= Seq::<EventView>::empty().push(e@));
            groups.push(Group { playlist: e.playlist_name.clone(), events: evs });
            proof {
                assert forall|q: int| 0 <= q < groups@.len() implies {
                    &&& (#[trigger] groups@[q]).playlist@ == playlists_of(after)[q]
                    &&& event_views(groups@[q].events@) == events_for(
                        after,
                        playlists_of(after)[q],
                    )
                } by {
                    if q < old_groups.len() {
                        assert(groups@[q] == old_groups[q]);
                        assert(keys[q] != e.playlist_name@);
                    }
                }
            }
        }
        i += 1;
    }
    assert(b.take(events.len() as int) =~= b);
    groups
}


/// A new identifier, made with `uuid::Uuid::new_v4`, as text. It is drawn at
/// random, so nothing is claimed of it.
#[verifier::external_body]
fn random_id() -> (r: String) {
    uuid::Uuid::new_v4().to_string()
}

/// What one run of the worker goes through.
#[derive(Debug, Clone, PartialEq, Eq)]
pub struct Run {
    /// The name under which this run takes leases.
    pub worker_id: String,
    /// The events of the queue, by playlist.
    pub groups: Vec<Group>,
}

/// Prepares a run of the worker over the unsynced events of the queue, for
/// `providers` providers: `None` where the queue is left alone, else the
/// events by playlist and a new name for the worker.
pub fn plan_run(events: &[Event], threshold: Option<u64>, providers: usize) -> (r: Option<Run>)
    ensures
        r is Some <==> consumes(events@.len() as int, threshold, providers as int),
        match r {
            Some(run) => groups_of(run.groups@, event_views(events@)),
            None => true,
        },
{
    if !should_consume(events.len(), threshold, providers) {
        return None;
    }
    Some(Run { worker_id: random_id(), groups: group_by_playlist(events) })
}

} // verus!
