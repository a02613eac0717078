//! One pass of reconciliation: one playlist, one provider, one batch of
//! events.
//!
//! A pass is a state machine. `begin` gives its first state and request; the
//! caller performs each request and hands the answer to `advance`, which gives
//! the next state and request, until the request is `Finished`.
//!
//! In order, a pass takes the lease on the playlist; looks up the remote id;
//! where the batch deletes the playlist, deletes it remotely, forgets its id
//! and marks the events; else makes sure that the remote playlist exists and
//! is still valid, renames it where its name is not the one wanted, brings the
//! remote tracks to what the local playlist file lists, resolves the adds and
//! removes of the batch, applies removes and then adds in batches, marks the
//! events as synced and gives the lease back. A local playlist file without
//! tracks empties the remote playlist; where there is no file, the remote
//! tracks are left as they are.
use crate::api::ErrorKind;
use crate::models::{opt_text, texts};
use crate::protocol::{Request, RequestView, Response, ResponseView};
use crate::resolver::{resolver_begin, resolver_next, Resolver, ResolverView};
use vstd::prelude::*;

verus! {

/// Why a remote playlist is being created.
#[derive(Debug, Clone, Copy, PartialEq, Eq, Structural)]
pub enum Cause {
    /// No remote id was on record.
    Absent,
    /// The provider said that the id on record no longer stands.
    Invalid,
    /// The provider found no playlist to rename to the configured name.
    ConfigRename,
    /// The provider found no playlist to rename after a folder's rename.
    ExplicitRename,
    /// The provider found no playlist to apply a batch to.
    Batch,
}

/// Where a pass stands: which request it waits on.
#[derive(Debug, Clone, Copy, PartialEq, Eq, Structural)]
pub enum Phase {
    Leasing,
    FindingRemote,
    Deleting,
    DeleteWait,
    Unmapping,
    Creating(Cause),
    Saving(Cause),
    Validating,
    Renaming { explicit: bool },
    RenameWait { explicit: bool },
    Migrating,
    ReadingLocal,
    ResolvingLocal,
    Listing,
    ResolvingOps,
    Applying,
    ApplyWait,
    Marking,
    Releasing,
    Finished,
}

/// An add or a remove of a track, by its local path.
#[derive(Debug, Clone, PartialEq, Eq)]
pub struct TrackOp {
    pub add: bool,
    pub path: String,
}

/// What a pass is given and does not change.
#[derive(Debug, Clone, PartialEq, Eq)]
pub struct Pass {
    pub playlist: String,
    pub provider: String,
    pub worker: String,
    /// The name that the remote playlist is to have.
    pub display_name: String,
    /// The key that the playlist's folder was renamed to, if it was.
    pub rename_to: Option<String>,
    /// The name that the remote playlist is to have after that rename.
    pub rename_name: String,
    pub has_delete: bool,
    pub track_ops: Vec<TrackOp>,
    /// The ids of the events of the batch.
    pub event_ids: Vec<i64>,
    pub max_retries: u32,
    /// How many tracks go into one request; 0 counts as 1.
    pub batch_size: usize,
    pub lease_ttl: i64,
}

/// What a pass knows so far.
#[derive(Debug, Clone, PartialEq, Eq)]
pub struct PassState {
    pub phase: Phase,
    pub remote_id: Option<String>,
    /// How often the current request was tried, this try included.
    pub attempt: u32,
    /// Whether something was given up, so that the events stay unsynced.
    pub failed: bool,
    /// Whether the events were marked as synced.
    pub synced: bool,
    /// The tracks that the local playlist file lists.
    pub local: Vec<String>,
    /// The position reached in the list that is being gone through.
    pub cursor: usize,
    /// The URIs that the local tracks resolved to, each once.
    pub desired: Vec<String>,
    pub add_uris: Vec<String>,
    pub remove_uris: Vec<String>,
    /// Whether the removes are done and the adds are being applied.
    pub adding: bool,
    pub resolver: Option<Resolver>,
}

/// A pass as contracts see it.
pub struct PassView {
    pub playlist: Seq<char>,
    pub provider: Seq<char>,
    pub worker: Seq<char>,
    pub display_name: Seq<char>,
    pub rename_to: Option<Seq<char>>,
    pub rename_name: Seq<char>,
    pub has_delete: bool,
    pub track_ops: Seq<(bool, Seq<char>)>,
    pub event_ids: Seq<i64>,
    pub max_retries: u32,
    pub batch_size: usize,
    pub lease_ttl: i64,
}

/// The state of a pass as contracts see it.
pub struct StateView {
    pub phase: Phase,
    pub remote_id: Option<Seq<char>>,
    pub attempt: u32,
    pub failed: bool,
    pub synced: bool,
    pub local: Seq<Seq<char>>,
    pub cursor: usize,
    pub desired: Seq<Seq<char>>,
    pub add_uris: Seq<Seq<char>>,
    pub remove_uris: Seq<Seq<char>>,
    pub adding: bool,
    pub resolver: Option<ResolverView>,
}

/// Track operations as contracts see them.
pub open spec fn op_views(v: Seq<TrackOp>) -> Seq<(bool, Seq<char>)> {
    v.map_values(|o: TrackOp| (o.add, o.path@))
}

impl View for Pass {
    type V = PassView;

    open spec fn view(&self) -> PassView {
        PassView {
            playlist: self.playlist@,
            provider: self.provider@,
            worker: self.worker@,
            display_name: self.display_name@,
            rename_to: opt_text(self.rename_to),
            rename_name: self.rename_name@,
            has_delete: self.has_delete,
            track_ops: op_views(self.track_ops@),
            event_ids: self.event_ids@,
            max_retries: self.max_retries,
            batch_size: self.batch_size,
            lease_ttl: self.lease_ttl,
        }
    }
}

impl View for PassState {
    type V = StateView;

    open spec fn view(&self) -> StateView {
        StateView {
            phase: self.phase,
            remote_id: opt_text(self.remote_id),
            attempt: self.attempt,
            failed: self.failed,
            synced: self.synced,
            local: texts(self.local@),
            cursor: self.cursor,
            desired: texts(self.desired@),
            add_uris: texts(self.add_uris@),
            remove_uris: texts(self.remove_uris@),
            adding: self.adding,
            resolver: match self.resolver {
                Some(r) => Some(r@),
                None => None,
            },
        }
    }
}

/// The seconds to wait before trying again after the try numbered `attempt`:
/// two to the power of `attempt`, and 60 at most.
pub open spec fn backoff_secs(attempt: u32) -> u64 {
    if attempt == 0 {
        1
    } else if attempt == 1 {
        2
    } else if attempt == 2 {
        4
    } else if attempt == 3 {
        8
    } else if attempt == 4 {
        16
    } else if attempt == 5 {
        32
    } else {
        60
    }
}

/// The seconds to wait after a rate limit: one more than the provider asked
/// for, or one more than the usual wait where it named no time.
pub open spec fn rate_limit_secs(retry_after: Option<u64>, attempt: u32) -> u64 {
    let wait = match retry_after {
        Some(secs) => secs,
        None => backoff_secs(attempt),
    };
    if wait < u64::MAX {
        (wait + 1) as u64
    } else {
        wait
    }
}

/// The number of the next try.
pub open spec fn bumped(attempt: u32) -> u32 {
    if attempt < u32::MAX {
        (attempt + 1) as u32
    } else {
        attempt
    }
}

/// The elements of `a` that `b` does not hold, in their order.
pub open spec fn minus(a: Seq<Seq<char>>, b: Seq<Seq<char>>) -> Seq<Seq<char>>
    decreases a.len(),
{
    if a.len() == 0 {
        Seq::empty()
    } else if b.contains(a.last()) {
        minus(a.drop_last(), b)
    } else {
        minus(a.drop_last(), b).push(a.last())
    }
}

/// How many tracks go into one request.
pub open spec fn step_size(p: PassView) -> int {
    if p.batch_size == 0 {
        1
    } else {
        p.batch_size as int
    }
}

/// Where the batch that begins at `cursor` ends.
pub open spec fn batch_end(len: int, cursor: int, size: int) -> int {
    if cursor >= len {
        cursor
    } else if size >= len - cursor {
        len
    } else {
        cursor + size
    }
}

/// The batch of `uris` that begins at `cursor`.
pub open spec fn batch_of(uris: Seq<Seq<char>>, cursor: int, size: int) -> Seq<Seq<char>> {
    if cursor >= uris.len() {
        Seq::empty()
    } else {
        uris.subrange(cursor, batch_end(uris.len() as int, cursor, size))
    }
}

/// The remote id on record; empty if there is none.
pub open spec fn remote_of(s: StateView) -> Seq<char> {
    match s.remote_id {
        Some(id) => id,
        None => Seq::empty(),
    }
}

/// The list that is being applied.
pub open spec fn current_uris(s: StateView) -> Seq<Seq<char>> {
    if s.adding {
        s.add_uris
    } else {
        s.remove_uris
    }
}

/// The request that applies the batch at the cursor.
pub open spec fn batch_request(p: PassView, s: StateView) -> RequestView {
    let uris = batch_of(current_uris(s), s.cursor as int, step_size(p));
    if s.adding {
        RequestView::AddTracks { remote_id: remote_of(s), uris }
    } else {
        RequestView::RemoveTracks { remote_id: remote_of(s), uris }
    }
}

/// Giving the lease back.
pub open spec fn release(p: PassView, s: StateView) -> (StateView, RequestView) {
    (
        StateView { phase: Phase::Releasing, resolver: None, ..s },
        RequestView::ReleaseLease { playlist: p.playlist, worker: p.worker },
    )
}

/// Marking the events as synced.
pub open spec fn mark(p: PassView, s: StateView) -> (StateView, RequestView) {
    (
        StateView { phase: Phase::Marking, resolver: None, ..s },
        RequestView::MarkSynced { ids: p.event_ids },
    )
}

/// The end of the work on tracks: the events are marked unless something was
/// given up.
pub open spec fn finish(p: PassView, s: StateView) -> (StateView, RequestView) {
    if s.failed {
        release(p, s)
    } else {
        mark(p, s)
    }
}

/// Applying the adds from the cursor on.
pub open spec fn enter_adds(p: PassView, s: StateView) -> (StateView, RequestView) {
    let s = StateView { adding: true, ..s };
    if s.cursor < s.add_uris.len() {
        (StateView { phase: Phase::Applying, attempt: 1, resolver: None, ..s }, batch_request(p, s))
    } else {
        finish(p, s)
    }
}

/// Applying what is left to apply: the removes from the cursor on and then the
/// adds, or the adds from the cursor on.
pub open spec fn enter_apply(p: PassView, s: StateView) -> (StateView, RequestView) {
    if s.adding {
        enter_adds(p, s)
    } else if s.cursor < s.remove_uris.len() {
        (StateView { phase: Phase::Applying, attempt: 1, resolver: None, ..s }, batch_request(p, s))
    } else {
        enter_adds(p, StateView { cursor: 0, ..s })
    }
}

/// The state after the batch at the cursor.
pub open spec fn past_batch(p: PassView, s: StateView) -> StateView {
    StateView {
        cursor: batch_end(current_uris(s).len() as int, s.cursor as int, step_size(p)) as usize,
        ..s
    }
}

/// Giving up the batch at the cursor and going on with the next.
pub open spec fn give_up_batch(p: PassView, s: StateView) -> (StateView, RequestView) {
    enter_apply(p, StateView { failed: true, ..past_batch(p, s) })
}

/// Giving up the list that is being applied: the adds follow the removes, the
/// end follows the adds.
pub open spec fn give_up_list(p: PassView, s: StateView) -> (StateView, RequestView) {
    let s = StateView { failed: true, ..s };
    if s.adding {
        finish(p, s)
    } else {
        enter_adds(p, StateView { cursor: 0, ..s })
    }
}

/// The position after `i`.
pub open spec fn next_index(i: usize) -> usize {
    if i < usize::MAX {
        (i + 1) as usize
    } else {
        i
    }
}

/// The state with the URI of a track operation taken in.
pub open spec fn absorb_op(p: PassView, s: StateView, r: ResolverView) -> StateView {
    let s = match r.uri {
        Some(uri) => if s.cursor < p.track_ops.len() && p.track_ops[s.cursor as int].0 {
            StateView { add_uris: s.add_uris.push(uri), ..s }
        } else {
            StateView { remove_uris: s.remove_uris.push(uri), ..s }
        },
        None => s,
    };
    StateView { cursor: next_index(s.cursor), resolver: None, ..s }
}

/// Resolving the track operations from the cursor on, then applying.
pub open spec fn enter_ops(p: PassView, s: StateView) -> (StateView, RequestView)
    decreases p.track_ops.len() - s.cursor,
{
    if s.cursor < p.track_ops.len() && s.cursor < usize::MAX {
        let (r, q) = resolver_begin(p.provider, p.track_ops[s.cursor as int].1);
        match q {
            Some(req) => (
                StateView { phase: Phase::ResolvingOps, resolver: Some(r), ..s },
                req,
            ),
            None => enter_ops(p, absorb_op(p, s, r)),
        }
    } else {
        enter_apply(p, StateView { cursor: 0, adding: false, resolver: None, ..s })
    }
}

/// The state with the URI of a local track taken in: a URI that is new is
/// wanted on the remote playlist.
pub open spec fn absorb_local(s: StateView, r: ResolverView) -> StateView {
    let s = match r.uri {
        Some(uri) => if s.desired.contains(uri) {
            s
        } else {
            StateView { desired: s.desired.push(uri), ..s }
        },
        None => s,
    };
    StateView { cursor: next_index(s.cursor), resolver: None, ..s }
}

/// Asking for the remote tracks, once the local tracks are resolved. This is
/// asked also where no track is wanted: the remote tracks are then all to be
/// removed.
pub open spec fn enter_listing(p: PassView, s: StateView) -> (StateView, RequestView) {
    (
        StateView { phase: Phase::Listing, resolver: None, ..s },
        RequestView::ListTracks { remote_id: remote_of(s) },
    )
}

/// Resolving the local tracks from the cursor on.
pub open spec fn enter_local(p: PassView, s: StateView) -> (StateView, RequestView)
    decreases s.local.len() - s.cursor,
{
    if s.cursor < s.local.len() && s.cursor < usize::MAX {
        let (r, q) = resolver_begin(p.provider, s.local[s.cursor as int]);
        match q {
            Some(req) => (
                StateView { phase: Phase::ResolvingLocal, resolver: Some(r), ..s },
                req,
            ),
            None => enter_local(p, absorb_local(s, r)),
        }
    } else {
        enter_listing(p, s)
    }
}

/// Asking for the tracks of the local playlist file.
pub open spec fn enter_read(p: PassView, s: StateView) -> (StateView, RequestView) {
    (
        StateView { phase: Phase::ReadingLocal, ..s },
        RequestView::ReadLocalPlaylist { playlist: p.playlist },
    )
}

/// The name that a rename gives the remote playlist.
pub open spec fn rename_target(p: PassView, explicit: bool) -> Seq<char> {
    if explicit {
        p.rename_name
    } else {
        p.display_name
    }
}

/// The request to rename the remote playlist.
pub open spec fn rename_request(p: PassView, s: StateView, explicit: bool) -> RequestView {
    RequestView::Rename { remote_id: remote_of(s), name: rename_target(p, explicit) }
}

/// Renaming after the folder's rename, where there was one.
pub open spec fn enter_explicit_rename(p: PassView, s: StateView) -> (StateView, RequestView) {
    if p.rename_to is Some {
        (
            StateView { phase: Phase::Renaming { explicit: true }, attempt: 1, ..s },
            rename_request(p, s, true),
        )
    } else {
        enter_read(p, s)
    }
}

/// Renaming to the configured name, where the batch holds no rename and that
/// name is not the playlist's key.
pub open spec fn enter_config_rename(p: PassView, s: StateView) -> (StateView, RequestView) {
    if p.rename_to is None && p.display_name != p.playlist {
        (
            StateView { phase: Phase::Renaming { explicit: false }, attempt: 1, ..s },
            rename_request(p, s, false),
        )
    } else {
        enter_explicit_rename(p, s)
    }
}

/// Asking whether the remote id still stands.
pub open spec fn enter_validate(p: PassView, s: StateView) -> (StateView, RequestView) {
    (
        StateView { phase: Phase::Validating, ..s },
        RequestView::CheckValid { remote_id: remote_of(s) },
    )
}

/// Creating the remote playlist.
pub open spec fn create(p: PassView, s: StateView, cause: Cause) -> (StateView, RequestView) {
    (
        StateView { phase: Phase::Creating(cause), ..s },
        RequestView::EnsurePlaylist { name: rename_target(p, cause == Cause::ExplicitRename) },
    )
}

/// Forgetting the remote id.
pub open spec fn unmap(p: PassView, s: StateView) -> (StateView, RequestView) {
    (
        StateView { phase: Phase::Unmapping, ..s },
        RequestView::DeleteMap { provider: p.provider, playlist: p.playlist },
    )
}

/// Deleting the remote playlist, where there is one on record.
pub open spec fn enter_delete(p: PassView, s: StateView) -> (StateView, RequestView) {
    match s.remote_id {
        Some(id) => (
            StateView { phase: Phase::Deleting, attempt: 1, ..s },
            RequestView::DeletePlaylist { remote_id: id },
        ),
        None => unmap(p, s),
    }
}

/// Moving the remote id to the key that the folder was renamed to, where it
/// was renamed; then the local playlist is read.
pub open spec fn migrate(p: PassView, s: StateView) -> (StateView, RequestView) {
    match p.rename_to {
        Some(to) => (
            StateView { phase: Phase::Migrating, ..s },
            RequestView::MigrateMap { provider: p.provider, from: p.playlist, to },
        ),
        None => enter_read(p, s),
    }
}

/// How the pass goes on once the new remote id is on record. After a folder's
/// rename the id, recorded under the old key, is moved to the new one.
pub open spec fn after_saving(p: PassView, s: StateView, cause: Cause) -> (
    StateView,
    RequestView,
) {
    match cause {
        Cause::Absent => enter_validate(p, s),
        Cause::Invalid => enter_config_rename(p, s),
        Cause::ConfigRename => enter_read(p, s),
        Cause::ExplicitRename => migrate(p, s),
        Cause::Batch => (StateView { phase: Phase::Applying, attempt: 1, ..s }, batch_request(p, s)),
    }
}

/// How the pass goes on where the remote playlist could not be created.
pub open spec fn after_create_failed(p: PassView, s: StateView, cause: Cause) -> (
    StateView,
    RequestView,
) {
    match cause {
        Cause::Absent => release(p, StateView { failed: true, ..s }),
        Cause::Invalid => release(p, StateView { failed: true, ..s }),
        Cause::ConfigRename => enter_read(p, s),
        Cause::ExplicitRename => enter_read(p, s),
        Cause::Batch => give_up_list(p, s),
    }
}

/// The first state of a pass.
pub open spec fn initial_state() -> StateView {
    StateView {
        phase: Phase::Leasing,
        remote_id: None,
        attempt: 0,
        failed: false,
        synced: false,
        local: Seq::empty(),
        cursor: 0,
        desired: Seq::empty(),
        add_uris: Seq::empty(),
        remove_uris: Seq::empty(),
        adding: false,
        resolver: None,
    }
}

/// How a pass begins: by asking for the lease.
pub open spec fn pass_begin(p: PassView) -> (StateView, RequestView) {
    (
        initial_state(),
        RequestView::AcquireLease {
            playlist: p.playlist,
            worker: p.worker,
            ttl_secs: p.lease_ttl,
        },
    )
}

/// How a pass goes on while a track is being resolved.
pub open spec fn resolving_next(p: PassView, s: StateView, resp: ResponseView) -> (
    StateView,
    RequestView,
) {
    match s.resolver {
        Some(r) => {
            let (r2, q) = resolver_next(r, resp);
            match q {
                Some(req) => (StateView { resolver: Some(r2), ..s }, req),
                None => if s.phase == Phase::ResolvingLocal {
                    enter_local(p, absorb_local(s, r2))
                } else {
                    enter_ops(p, absorb_op(p, s, r2))
                },
            }
        },
        None => if s.phase == Phase::ResolvingLocal {
            enter_listing(p, s)
        } else {
            enter_apply(p, StateView { cursor: 0, adding: false, ..s })
        },
    }
}

/// How a pass goes on after the answer `resp` to its last request: its new
/// state and its next request.
pub open spec fn pass_next(p: PassView, s: StateView, resp: ResponseView) -> (
    StateView,
    RequestView,
) {
    match s.phase {
        Phase::Leasing => match resp {
            ResponseView::Flag(true) => (
                StateView { phase: Phase::FindingRemote, ..s },
                RequestView::GetRemoteId { provider: p.provider, playlist: p.playlist },
            ),
            _ => (StateView { phase: Phase::Finished, ..s }, RequestView::Finished { synced: false }),
        },
        Phase::FindingRemote => match resp {
            ResponseView::Text(id) => {
                let s = StateView { remote_id: id, ..s };
                if p.has_delete {
                    enter_delete(p, s)
                } else if id is None {
                    create(p, s, Cause::Absent)
                } else {
                    enter_validate(p, s)
                }
            },
            _ => release(p, StateView { failed: true, ..s }),
        },
        Phase::Deleting => match resp {
            ResponseView::Done => unmap(p, s),
            _ => if s.attempt >= p.max_retries {
                unmap(p, s)
            } else {
                (
                    StateView { phase: Phase::DeleteWait, ..s },
                    RequestView::Sleep { secs: backoff_secs(s.attempt) },
                )
            },
        },
        Phase::DeleteWait => (
            StateView { phase: Phase::Deleting, attempt: bumped(s.attempt), ..s },
            RequestView::DeletePlaylist { remote_id: remote_of(s) },
        ),
        Phase::Unmapping => mark(p, s),
        Phase::Creating(cause) => match resp {
            ResponseView::Text(Some(id)) => (
                StateView { phase: Phase::Saving(cause), remote_id: Some(id), ..s },
                RequestView::UpsertMap { provider: p.provider, playlist: p.playlist, remote_id: id },
            ),
            _ => after_create_failed(p, s, cause),
        },
        Phase::Saving(cause) => match resp {
            ResponseView::Done => after_saving(p, s, cause),
            _ => release(p, StateView { failed: true, ..s }),
        },
        Phase::Validating => match resp {
            ResponseView::Flag(false) => create(p, s, Cause::Invalid),
            _ => enter_config_rename(p, s),
        },
        Phase::Renaming { explicit } => match resp {
            ResponseView::Done => if explicit {
                migrate(p, s)
            } else {
                enter_read(p, s)
            },
            ResponseView::Failed(ErrorKind::PlaylistMissing) => create(
                p,
                s,
                if explicit {
                    Cause::ExplicitRename
                } else {
                    Cause::ConfigRename
                },
            ),
            _ => if s.attempt >= p.max_retries {
                enter_read(p, s)
            } else {
                (
                    StateView { phase: Phase::RenameWait { explicit }, ..s },
                    RequestView::Sleep { secs: backoff_secs(s.attempt) },
                )
            },
        },
        Phase::RenameWait { explicit } => (
            StateView { phase: Phase::Renaming { explicit }, attempt: bumped(s.attempt), ..s },
            rename_request(p, s, explicit),
        ),
        Phase::Migrating => enter_read(p, s),
        Phase::ReadingLocal => match resp {
            ResponseView::Texts(paths) => enter_local(
                p,
                StateView { local: paths, cursor: 0, desired: Seq::empty(), ..s },
            ),
            _ => enter_ops(p, StateView { cursor: 0, ..s }),
        },
        Phase::ResolvingLocal => resolving_next(p, s, resp),
        Phase::Listing => match resp {
            ResponseView::Texts(current) => enter_ops(
                p,
                StateView {
                    cursor: 0,
                    add_uris: minus(s.desired, current),
                    remove_uris: minus(current, s.desired),
                    ..s
                },
            ),
            _ => enter_ops(p, StateView { cursor: 0, ..s }),
        },
        Phase::ResolvingOps => resolving_next(p, s, resp),
        Phase::Applying => match resp {
            ResponseView::Done => enter_apply(p, past_batch(p, s)),
            ResponseView::Failed(ErrorKind::RateLimited { retry_after }) => (
                StateView { phase: Phase::ApplyWait, ..s },
                RequestView::Sleep { secs: rate_limit_secs(retry_after, s.attempt) },
            ),
            ResponseView::Failed(ErrorKind::PlaylistMissing) => create(p, s, Cause::Batch),
            ResponseView::Failed(ErrorKind::TransientNetwork) => if s.attempt
                >= p.max_retries {
                give_up_batch(p, s)
            } else {
                (
                    StateView { phase: Phase::ApplyWait, ..s },
                    RequestView::Sleep { secs: backoff_secs(s.attempt) },
                )
            },
            _ => give_up_batch(p, s),
        },
        Phase::ApplyWait => if s.attempt >= p.max_retries {
            give_up_batch(p, s)
        } else {
            (
                StateView { phase: Phase::Applying, attempt: bumped(s.attempt), ..s },
                batch_request(p, s),
            )
        },
        Phase::Marking => match resp {
            ResponseView::Done => release(p, StateView { synced: true, ..s }),
            _ => release(p, s),
        },
        Phase::Releasing => (
            StateView { phase: Phase::Finished, ..s },
            RequestView::Finished { synced: s.synced },
        ),
        Phase::Finished => (s, RequestView::Finished { synced: s.synced }),
    }
}


/// Computes the seconds to wait before trying again.
pub fn backoff(attempt: u32) -> (r: u64)
    ensures
        r == backoff_secs(attempt),
{
    if attempt == 0 {
        1
    } else if attempt == 1 {
        2
    } else if attempt == 2 {
        4
    } else if attempt == 3 {
        8
    } else if attempt == 4 {
        16
    } else if attempt == 5 {
        32
    } else {
        60
    }
}

/// Computes the seconds to wait after a rate limit.
pub fn rate_limit_wait(retry_after: Option<u64>, attempt: u32) -> (r: u64)
    ensures
        r == rate_limit_secs(retry_after, attempt),
{
    let wait = match retry_after {
        Some(secs) => secs,
        None => backoff(attempt),
    };
    if wait < u64::MAX {
        wait + 1
    } else {
        wait
    }
}

fn bump(attempt: u32) -> (r: u32)
    ensures
        r == bumped(attempt),
{
    if attempt < u32::MAX {
        attempt + 1
    } else {
        attempt
    }
}

/// Tests whether `v` holds the string `s`.
pub fn holds(v: &Vec<String>, s: &String) -> (r: bool)
    ensures
        r == texts(v@).contains(s@),
{
    let mut i: usize = 0;
    while i < v.len()
        invariant
            i <= v.len(),
            forall|j: int| 0 <= j < i ==> texts(v@)[j] != s@,
        decreases v.len() - i,
    {
        if v[i] == *s {
            assert(texts(v@)[i as int] == s@);
            return true;
        }
        i += 1;
    }
    false
}

fn push_text(v: &mut Vec<String>, s: String)
    ensures
        texts(final(v)@) == texts(old(v)@).push(s@),
{
    v.push(s);
    assert(texts(v@) =~= texts(old(v)@).push(s@));
}

/// Gives the elements of `a` that `b` does not hold, in their order.
pub fn difference(a: &Vec<String>, b: &Vec<String>) -> (r: Vec<String>)
    ensures
        texts(r@) == minus(texts(a@), texts(b@)),
{
    let mut r: Vec<String> = Vec::new();
    let mut i: usize = 0;
    assert(texts(a@).take(0) =~= Seq::<Seq<char>>::empty());
    assert(texts(r@) =~= Seq::<Seq<char>>::empty());
    while i < a.len()
        invariant
            i <= a.len(),
            texts(r@) == minus(texts(a@).take(i as int), texts(b@)),
        decreases a.len() - i,
    {
        proof {
            let t = texts(a@).take(i + 1);
            assert(t.drop_last() =~= texts(a@).take(i as int));
            assert(t.last() == a@[i as int]@);
        }
        if !holds(b, &a[i]) {
            push_text(&mut r, a[i].clone());
        }
        i += 1;
    }
    assert(texts(a@).take(a.len() as int) =~= texts(a@));
    r
}

fn copy_range(v: &Vec<String>, from: usize, to: usize) -> (r: Vec<String>)
    requires
        from <= to <= v.len(),
    ensures
        texts(r@) == texts(v@).subrange(from as int, to as int),
{
    let mut r: Vec<String> = Vec::new();
    let mut i: usize = from;
    while i < to
        invariant
            from <= i <= to,
            to <= v.len(),
            r@.len() == i - from,
            forall|j: int| 0 <= j < i - from ==> r@[j]@ == v@[from + j]@,
        decreases to - i,
    {
        r.push(v[i].clone());
        i += 1;
    }
    assert(texts(r@) =~= texts(v@).subrange(from as int, to as int));
    r
}

fn end_of_batch(len: usize, cursor: usize, size: usize) -> (r: usize)
    ensures
        r == batch_end(len as int, cursor as int, size as int),
{
    if cursor >= len {
        cursor
    } else if size >= len - cursor {
        len
    } else {
        cursor + size
    }
}

impl PassState {
    fn remote(&self) -> (r: String)
        ensures
            r@ == remote_of(self@),
    {
        match &self.remote_id {
            Some(id) => id.clone(),
            None => String::new(),
        }
    }
}

impl Pass {
    fn size(&self) -> (r: usize)
        ensures
            r == step_size(self@),
    {
        if self.batch_size == 0 {
            1
        } else {
            self.batch_size
        }
    }

    fn batch(&self, s: &PassState) -> (r: Request)
        ensures
            r@ == batch_request(self@, s@),
    {
        let remote_id = s.remote();
        if s.adding {
            let uris = if s.cursor >= s.add_uris.len() {
                Vec::new()
            } else {
                let end = end_of_batch(s.add_uris.len(), s.cursor, self.size());
                copy_range(&s.add_uris, s.cursor, end)
            };
            assert(texts(uris@) =~= batch_of(current_uris(s@), s.cursor as int, step_size(self@)));
            Request::AddTracks { remote_id, uris }
        } else {
            let uris = if s.cursor >= s.remove_uris.len() {
                Vec::new()
            } else {
                let end = end_of_batch(s.remove_uris.len(), s.cursor, self.size());
                copy_range(&s.remove_uris, s.cursor, end)
            };
            assert(texts(uris@) =~= batch_of(current_uris(s@), s.cursor as int, step_size(self@)));
            Request::RemoveTracks { remote_id, uris }
        }
    }

    fn release(&self, s: PassState) -> (r: (PassState, Request))
        ensures
            (r.0@, r.1@) == release(self@, s@),
    {
        let req = Request::ReleaseLease {
            playlist: self.playlist.clone(),
            worker: self.worker.clone(),
        };
        (PassState { phase: Phase::Releasing, resolver: None, ..s }, req)
    }

    fn mark(&self, s: PassState) -> (r: (PassState, Request))
        ensures
            (r.0@, r.1@) == mark(self@, s@),
    {
        let req = Request::MarkSynced { ids: self.event_ids.clone() };
        (PassState { phase: Phase::Marking, resolver: None, ..s }, req)
    }

    fn finish(&self, s: PassState) -> (r: (PassState, Request))
        ensures
            (r.0@, r.1@) == finish(self@, s@),
    {
        if s.failed {
            self.release(s)
        } else {
            self.mark(s)
        }
    }

    fn enter_adds(&self, s: PassState) -> (r: (PassState, Request))
        ensures
            (r.0@, r.1@) == enter_adds(self@, s@),
    {
        let s = PassState { adding: true, ..s };
        if s.cursor < s.add_uris.len() {
            let req = self.batch(&s);
            (PassState { phase: Phase::Applying, attempt: 1, resolver: None, ..s }, req)
        } else {
            self.finish(s)
        }
    }

    fn enter_apply(&self, s: PassState) -> (r: (PassState, Request))
        ensures
            (r.0@, r.1@) == enter_apply(self@, s@),
    {
        if s.adding {
            self.enter_adds(s)
        } else if s.cursor < s.remove_uris.len() {
            let req = self.batch(&s);
            (PassState { phase: Phase::Applying, attempt: 1, resolver: None, ..s }, req)
        } else {
            self.enter_adds(PassState { cursor: 0, ..s })
        }
    }

    fn past_batch(&self, s: PassState) -> (r: PassState)
        ensures
            r@ == past_batch(self@, s@),
    {
        let len = if s.adding {
            s.add_uris.len()
        } else {
            s.remove_uris.len()
        };
        let cursor = end_of_batch(len, s.cursor, self.size());
        PassState { cursor, ..s }
    }

    fn give_up_batch(&self, s: PassState) -> (r: (PassState, Request))
        ensures
            (r.0@, r.1@) == give_up_batch(self@, s@),
    {
        let s = self.past_batch(s);
        self.enter_apply(PassState { failed: true, ..s })
    }

    fn give_up_list(&self, s: PassState) -> (r: (PassState, Request))
        ensures
            (r.0@, r.1@) == give_up_list(self@, s@),
    {
        let s = PassState { failed: true, ..s };
        if s.adding {
            self.finish(s)
        } else {
            self.enter_adds(PassState { cursor: 0, ..s })
        }
    }

    fn absorb_op(&self, s: PassState, r: Resolver) -> (out: PassState)
        ensures
            out@ == absorb_op(self@, s@, r@),
    {
        let mut s = s;
        match r.uri {
            Some(uri) => {
                if s.cursor < self.track_ops.len() && self.track_ops[s.cursor].add {
                    push_text(&mut s.add_uris, uri);
                } else {
                    push_text(&mut s.remove_uris, uri);
                }
            },
            None => {},
        }
        let cursor = if s.cursor < usize::MAX {
            s.cursor + 1
        } else {
            s.cursor
        };
        PassState { cursor, resolver: None, ..s }
    }

    fn enter_ops(&self, s: PassState) -> (r: (PassState, Request))
        ensures
            (r.0@, r.1@) == enter_ops(self@, s@),
        decreases self.track_ops.len() - s.cursor,
    {
        if s.cursor < self.track_ops.len() {
            let (r, q) = Resolver::begin(
                self.provider.as_str(),
                self.track_ops[s.cursor].path.as_str(),
            );
            match q {
                Some(req) => (PassState { phase: Phase::ResolvingOps, resolver: Some(r), ..s }, req),
                None => {
                    let s2 = self.absorb_op(s, r);
                    self.enter_ops(s2)
                },
            }
        } else {
            self.enter_apply(PassState { cursor: 0, adding: false, resolver: None, ..s })
        }
    }

    fn absorb_local(&self, s: PassState, r: Resolver) -> (out: PassState)
        ensures
            out@ == absorb_local(s@, r@),
    {
        let mut s = s;
        match r.uri {
            Some(uri) => {
                if !holds(&s.desired, &uri) {
                    push_text(&mut s.desired, uri);
                }
            },
            None => {},
        }
        let cursor = if s.cursor < usize::MAX {
            s.cursor + 1
        } else {
            s.cursor
        };
        PassState { cursor, resolver: None, ..s }
    }

    fn enter_listing(&self, s: PassState) -> (r: (PassState, Request))
        ensures
            (r.0@, r.1@) == enter_listing(self@, s@),
    {
        let req = Request::ListTracks { remote_id: s.remote() };
        (PassState { phase: Phase::Listing, resolver: None, ..s }, req)
    }

    fn enter_local(&self, s: PassState) -> (r: (PassState, Request))
        ensures
            (r.0@, r.1@) == enter_local(self@, s@),
        decreases s.local.len() - s.cursor,
    {
        if s.cursor < s.local.len() {
            let (r, q) = Resolver::begin(self.provider.as_str(), s.local[s.cursor].as_str());
            match q {
                Some(req) => (
                    PassState { phase: Phase::ResolvingLocal, resolver: Some(r), ..s },
                    req,
                ),
                None => {
                    let ghost n = s.local@.len();
                    assert(texts(s.local@).len() == n);
                    let s2 = self.absorb_local(s, r);
                    assert(texts(s2.local@).len() == s2.local@.len());
                    assert(s2.local@.len() == n);
                    self.enter_local(s2)
                },
            }
        } else {
            self.enter_listing(s)
        }
    }

    fn enter_read(&self, s: PassState) -> (r: (PassState, Request))
        ensures
            (r.0@, r.1@) == enter_read(self@, s@),
    {
        let req = Request::ReadLocalPlaylist { playlist: self.playlist.clone() };
        (PassState { phase: Phase::ReadingLocal, ..s }, req)
    }

    fn rename(&self, s: &PassState, explicit: bool) -> (r: Request)
        ensures
            r@ == rename_request(self@, s@, explicit),
    {
        let name = if explicit {
            self.rename_name.clone()
        } else {
            self.display_name.clone()
        };
        Request::Rename { remote_id: s.remote(), name }
    }

    fn enter_explicit_rename(&self, s: PassState) -> (r: (PassState, Request))
        ensures
            (r.0@, r.1@) == enter_explicit_rename(self@, s@),
    {
        if self.rename_to.is_some() {
            let req = self.rename(&s, true);
            (PassState { phase: Phase::Renaming { explicit: true }, attempt: 1, ..s }, req)
        } else {
            self.enter_read(s)
        }
    }

    fn enter_config_rename(&self, s: PassState) -> (r: (PassState, Request))
        ensures
            (r.0@, r.1@) == enter_config_rename(self@, s@),
    {
        if self.rename_to.is_none() && self.display_name != self.playlist {
            let req = self.rename(&s, false);
            (PassState { phase: Phase::Renaming { explicit: false }, attempt: 1, ..s }, req)
        } else {
            self.enter_explicit_rename(s)
        }
    }

    fn enter_validate(&self, s: PassState) -> (r: (PassState, Request))
        ensures
            (r.0@, r.1@) == enter_validate(self@, s@),
    {
        let req = Request::CheckValid { remote_id: s.remote() };
        (PassState { phase: Phase::Validating, ..s }, req)
    }

    fn create(&self, s: PassState, cause: Cause) -> (r: (PassState, Request))
        ensures
            (r.0@, r.1@) == create(self@, s@, cause),
    {
        let name = if cause == Cause::ExplicitRename {
            self.rename_name.clone()
        } else {
            self.display_name.clone()
        };
        (PassState { phase: Phase::Creating(cause), ..s }, Request::EnsurePlaylist { name })
    }

    fn unmap(&self, s: PassState) -> (r: (PassState, Request))
        ensures
            (r.0@, r.1@) == unmap(self@, s@),
    {
        let req = Request::DeleteMap {
            provider: self.provider.clone(),
            playlist: self.playlist.clone(),
        };
        (PassState { phase: Phase::Unmapping, ..s }, req)
    }

    fn enter_delete(&self, s: PassState) -> (r: (PassState, Request))
        ensures
            (r.0@, r.1@) == enter_delete(self@, s@),
    {
        if s.remote_id.is_some() {
            let req = Request::DeletePlaylist { remote_id: s.remote() };
            (PassState { phase: Phase::Deleting, attempt: 1, ..s }, req)
        } else {
            self.unmap(s)
        }
    }

    fn migrate(&self, s: PassState) -> (r: (PassState, Request))
        ensures
            (r.0@, r.1@) == migrate(self@, s@),
    {
        match &self.rename_to {
            Some(to) => {
                let req = Request::MigrateMap {
                    provider: self.provider.clone(),
                    from: self.playlist.clone(),
                    to: to.clone(),
                };
                (PassState { phase: Phase::Migrating, ..s }, req)
            },
            None => self.enter_read(s),
        }
    }

    fn after_saving(&self, s: PassState, cause: Cause) -> (r: (PassState, Request))
        ensures
            (r.0@, r.1@) == after_saving(self@, s@, cause),
    {
        match cause {
            Cause::Absent => self.enter_validate(s),
            Cause::Invalid => self.enter_config_rename(s),
            Cause::ConfigRename => self.enter_read(s),
            Cause::ExplicitRename => self.migrate(s),
            Cause::Batch => {
                let req = self.batch(&s);
                (PassState { phase: Phase::Applying, attempt: 1, ..s }, req)
            },
        }
    }

    fn after_create_failed(&self, s: PassState, cause: Cause) -> (r: (PassState, Request))
        ensures
            (r.0@, r.1@) == after_create_failed(self@, s@, cause),
    {
        match cause {
            Cause::Absent => self.release(PassState { failed: true, ..s }),
            Cause::Invalid => self.release(PassState { failed: true, ..s }),
            Cause::ConfigRename => self.enter_read(s),
            Cause::ExplicitRename => self.enter_read(s),
            Cause::Batch => self.give_up_list(s),
        }
    }

    fn resolving(&self, s: PassState, resp: Response) -> (r: (PassState, Request))
        ensures
            (r.0@, r.1@) == resolving_next(self@, s@, resp@),
    {
        let mut s = s;
        let local = s.phase == Phase::ResolvingLocal;
        match s.resolver.take() {
            Some(r) => {
                let (r2, q) = r.advance(resp);
                match q {
                    Some(req) => (PassState { resolver: Some(r2), ..s }, req),
                    None => {
                        if local {
                            let s2 = self.absorb_local(s, r2);
                            self.enter_local(s2)
                        } else {
                            let s2 = self.absorb_op(s, r2);
                            self.enter_ops(s2)
                        }
                    },
                }
            },
            None => {
                if local {
                    self.enter_listing(s)
                } else {
                    self.enter_apply(PassState { cursor: 0, adding: false, ..s })
                }
            },
        }
    }

    /// Goes on with a pass after the answer to its last request.
    pub fn advance(&self, s: PassState, resp: Response) -> (r: (PassState, Request))
        ensures
            (r.0@, r.1@) == pass_next(self@, s@, resp@),
    {
        match s.phase {
            Phase::Leasing => match resp {
                Response::Flag(true) => {
                    let req = Request::GetRemoteId {
                        provider: self.provider.clone(),
                        playlist: self.playlist.clone(),
                    };
                    (PassState { phase: Phase::FindingRemote, ..s }, req)
                },
                _ => (PassState { phase: Phase::Finished, ..s }, Request::Finished { synced: false }),
            },
            Phase::FindingRemote => match resp {
                Response::Text(id) => {
                    let absent = id.is_none();
                    let s = PassState { remote_id: id, ..s };
                    if self.has_delete {
                        self.enter_delete(s)
                    } else if absent {
                        self.create(s, Cause::Absent)
                    } else {
                        self.enter_validate(s)
                    }
                },
                _ => self.release(PassState { failed: true, ..s }),
            },
            Phase::Deleting => match resp {
                Response::Done => self.unmap(s),
                _ => {
                    if s.attempt >= self.max_retries {
                        self.unmap(s)
                    } else {
                        let secs = backoff(s.attempt);
                        (PassState { phase: Phase::DeleteWait, ..s }, Request::Sleep { secs })
                    }
                },
            },
            Phase::DeleteWait => {
                let req = Request::DeletePlaylist { remote_id: s.remote() };
                let attempt = bump(s.attempt);
                (PassState { phase: Phase::Deleting, attempt, ..s }, req)
            },
            Phase::Unmapping => self.mark(s),
            Phase::Creating(cause) => match resp {
                Response::Text(Some(id)) => {
                    let req = Request::UpsertMap {
                        provider: self.provider.clone(),
                        playlist: self.playlist.clone(),
                        remote_id: id.clone(),
                    };
                    (PassState { phase: Phase::Saving(cause), remote_id: Some(id), ..s }, req)
                },
                _ => self.after_create_failed(s, cause),
            },
            Phase::Saving(cause) => match resp {
                Response::Done => self.after_saving(s, cause),
                _ => self.release(PassState { failed: true, ..s }),
            },
            Phase::Validating => match resp {
                Response::Flag(false) => self.create(s, Cause::Invalid),
                _ => self.enter_config_rename(s),
            },
            Phase::Renaming { explicit } => match resp {
                Response::Done => {
                    if explicit {
                        self.migrate(s)
                    } else {
                        self.enter_read(s)
                    }
                },
                Response::Failed(ErrorKind::PlaylistMissing) => {
                    let cause = if explicit {
                        Cause::ExplicitRename
                    } else {
                        Cause::ConfigRename
                    };
                    self.create(s, cause)
                },
                _ => {
                    if s.attempt >= self.max_retries {
                        self.enter_read(s)
                    } else {
                        let secs = backoff(s.attempt);
                        (
                            PassState { phase: Phase::RenameWait { explicit }, ..s },
                            Request::Sleep { secs },
                        )
                    }
                },
            },
            Phase::RenameWait { explicit } => {
                let req = self.rename(&s, explicit);
                let attempt = bump(s.attempt);
                (PassState { phase: Phase::Renaming { explicit }, attempt, ..s }, req)
            },
            Phase::Migrating => self.enter_read(s),
            Phase::ReadingLocal => match resp {
                Response::Texts(paths) => {
                    let s = PassState { local: paths, cursor: 0, desired: Vec::new(), ..s };
                    assert(texts(s.desired@) =~= Seq::<Seq<char>>::empty());
                    self.enter_local(s)
                },
                _ => self.enter_ops(PassState { cursor: 0, ..s }),
            },
            Phase::ResolvingLocal => self.resolving(s, resp),
            Phase::Listing => match resp {
                Response::Texts(current) => {
                    let add_uris = difference(&s.desired, &current);
                    let remove_uris = difference(&current, &s.desired);
                    self.enter_ops(PassState { cursor: 0, add_uris, remove_uris, ..s })
                },
                _ => self.enter_ops(PassState { cursor: 0, ..s }),
            },
            Phase::ResolvingOps => self.resolving(s, resp),
            Phase::Applying => match resp {
                Response::Done => {
                    let s = self.past_batch(s);
                    self.enter_apply(s)
                },
                Response::Failed(ErrorKind::RateLimited { retry_after }) => {
                    let secs = rate_limit_wait(retry_after, s.attempt);
                    (PassState { phase: Phase::ApplyWait, ..s }, Request::Sleep { secs })
                },
                Response::Failed(ErrorKind::PlaylistMissing) => self.create(s, Cause::Batch),
                Response::Failed(ErrorKind::TransientNetwork) => {
                    if s.attempt >= self.max_retries {
                        self.give_up_batch(s)
                    } else {
                        let secs = backoff(s.attempt);
                        (PassState { phase: Phase::ApplyWait, ..s }, Request::Sleep { secs })
                    }
                },
                _ => self.give_up_batch(s),
            },
            Phase::ApplyWait => {
                if s.attempt >= self.max_retries {
                    self.give_up_batch(s)
                } else {
                    let req = self.batch(&s);
                    let attempt = bump(s.attempt);
                    (PassState { phase: Phase::Applying, attempt, ..s }, req)
                }
            },
            Phase::Marking => match resp {
                Response::Done => self.release(PassState { synced: true, ..s }),
                _ => self.release(s),
            },
            Phase::Releasing => {
                let synced = s.synced;
                (PassState { phase: Phase::Finished, ..s }, Request::Finished { synced })
            },
            Phase::Finished => {
                let synced = s.synced;
                (s, Request::Finished { synced })
            },
        }
    }

    /// Begins a pass.
    pub fn begin(&self) -> (r: (PassState, Request))
        ensures
            (r.0@, r.1@) == pass_begin(self@),
    {
        let s = PassState {
            phase: Phase::Leasing,
            remote_id: None,
            attempt: 0,
            failed: false,
            synced: false,
            local: Vec::new(),
            cursor: 0,
            desired: Vec::new(),
            add_uris: Vec::new(),
            remove_uris: Vec::new(),
            adding: false,
            resolver: None,
        };
        assert(s@ =~= initial_state()) by {
            assert(texts(s.local@) =~= Seq::<Seq<char>>::empty());
        }
        let req = Request::AcquireLease {
            playlist: self.playlist.clone(),
            worker: self.worker.clone(),
            ttl_secs: self.lease_ttl,
        };
        (s, req)
    }
}


/// What `minus` keeps of `a` is what `b` does not hold.
pub proof fn lemma_minus_contains(a: Seq<Seq<char>>, b: Seq<Seq<char>>, x: Seq<char>)
    ensures
        minus(a, b).contains(x) <==> (a.contains(x) && !b.contains(x)),
    decreases a.len(),
{
    if a.len() > 0 {
        let rest = a.drop_last();
        let l = a.last();
        lemma_minus_contains(rest, b, x);
        assert(a.contains(x) <==> (rest.contains(x) || l == x)) by {
            if rest.contains(x) {
                let i = choose|i: int| 0 <= i < rest.len() && rest[i] == x;
                assert(a[i] == x);
            }
            if l == x {
                assert(a[a.len() - 1] == x);
            }
            if a.contains(x) {
                let i = choose|i: int| 0 <= i < a.len() && a[i] == x;
                if i < rest.len() {
                    assert(rest[i] == x);
                }
            }
        }
        let m = minus(rest, b);
        if !b.contains(l) {
            let m2 = m.push(l);
            assert(m2.contains(x) <==> (m.contains(x) || l == x)) by {
                if m.contains(x) {
                    let i = choose|i: int| 0 <= i < m.len() && m[i] == x;
                    assert(m2[i] == x);
                }
                if l == x {
                    assert(m2[m2.len() - 1] == x);
                }
                if m2.contains(x) {
                    let i = choose|i: int| 0 <= i < m2.len() && m2[i] == x;
                    if i < m.len() {
                        assert(m[i] == x);
                    }
                }
            }
        }
    }
}

/// Removing from the remote tracks those that are not wanted and adding those
/// that are wanted and not there leaves exactly the wanted tracks.
pub proof fn lemma_diff_reaches_desired(desired: Seq<Seq<char>>, current: Seq<Seq<char>>)
    ensures
        current.to_set().difference(minus(current, desired).to_set()).union(
            minus(desired, current).to_set(),
        ) == desired.to_set(),
{
    let after = current.to_set().difference(minus(current, desired).to_set()).union(
        minus(desired, current).to_set(),
    );
    assert forall|x: Seq<char>| after.contains(x) == desired.to_set().contains(x) by {
        lemma_minus_contains(current, desired, x);
        lemma_minus_contains(desired, current, x);
    }
    assert(after =~= desired.to_set());
}

/// The batches of `uris` from `cursor` on, one after the other.
pub open spec fn all_batches(uris: Seq<Seq<char>>, cursor: int, size: int) -> Seq<Seq<char>>
    decreases uris.len() - cursor,
{
    if cursor < 0 || cursor >= uris.len() || size <= 0 {
        Seq::empty()
    } else {
        batch_of(uris, cursor, size) + all_batches(
            uris,
            batch_end(uris.len() as int, cursor, size),
            size,
        )
    }
}

/// The batches hold every track of the list once, in order.
pub proof fn lemma_batches_cover(uris: Seq<Seq<char>>, cursor: int, size: int)
    requires
        0 <= cursor <= uris.len(),
        size > 0,
    ensures
        all_batches(uris, cursor, size) == uris.skip(cursor),
    decreases uris.len() - cursor,
{
    if cursor < uris.len() {
        let end = batch_end(uris.len() as int, cursor, size);
        lemma_batches_cover(uris, end, size);
        assert(uris.subrange(cursor, end) + uris.skip(end) =~= uris.skip(cursor));
    } else {
        assert(uris.skip(cursor) =~= Seq::<Seq<char>>::empty());
    }
}

/// Where the provider finds no playlist to apply a batch to, the pass creates
/// one under the wanted name, records its id, and sends the same batch to the
/// new playlist, as a first try.
pub proof fn lemma_missing_playlist_recovery(p: PassView, s: StateView, new_id: Seq<char>)
    requires
        s.phase == Phase::Applying,
    ensures
        ({
            let (s1, q1) = pass_next(
                p,
                s,
                ResponseView::Failed(ErrorKind::PlaylistMissing),
            );
            let (s2, q2) = pass_next(p, s1, ResponseView::Text(Some(new_id)));
            let (s3, q3) = pass_next(p, s2, ResponseView::Done);
            &&& q1 == RequestView::EnsurePlaylist { name: p.display_name }
            &&& q2 == RequestView::UpsertMap {
                provider: p.provider,
                playlist: p.playlist,
                remote_id: new_id,
            }
            &&& q3 == batch_request(p, StateView { remote_id: Some(new_id), ..s })
            &&& s3 == StateView { remote_id: Some(new_id), attempt: 1, ..s }
        }),
{
}

/// Where the provider finds no playlist to rename, the pass creates one under
/// the name that the rename was to give and records its id. After a folder's
/// rename it then moves the id to the new key; in either case it goes on to
/// the tracks.
pub proof fn lemma_missing_playlist_on_rename(
    p: PassView,
    s: StateView,
    explicit: bool,
    new_id: Seq<char>,
)
    requires
        s.phase == (Phase::Renaming { explicit }),
    ensures
        ({
            let (s1, q1) = pass_next(
                p,
                s,
                ResponseView::Failed(ErrorKind::PlaylistMissing),
            );
            let (s2, q2) = pass_next(p, s1, ResponseView::Text(Some(new_id)));
            let (s3, q3) = pass_next(p, s2, ResponseView::Done);
            &&& q1 == RequestView::EnsurePlaylist { name: rename_target(p, explicit) }
            &&& q2 == RequestView::UpsertMap {
                provider: p.provider,
                playlist: p.playlist,
                remote_id: new_id,
            }
            &&& q3 == match p.rename_to {
                Some(to) => if explicit {
                    RequestView::MigrateMap { provider: p.provider, from: p.playlist, to }
                } else {
                    RequestView::ReadLocalPlaylist { playlist: p.playlist }
                },
                None => RequestView::ReadLocalPlaylist { playlist: p.playlist },
            }
            &&& s3.remote_id == Some(new_id)
            &&& s3.failed == s.failed
            &&& s3.phase == Phase::Migrating ==> pass_next(p, s3, ResponseView::Done).1
                == (RequestView::ReadLocalPlaylist { playlist: p.playlist })
        }),
{
}

/// A local playlist that lists no track is reconciled like any other: the
/// remote tracks are asked for, and all of them are then to be removed.
pub proof fn lemma_empty_local_playlist_is_listed(
    p: PassView,
    s: StateView,
    current: Seq<Seq<char>>,
)
    requires
        s.phase == Phase::ReadingLocal,
    ensures
        ({
            let (s1, q1) = pass_next(p, s, ResponseView::Texts(Seq::empty()));
            &&& q1 == RequestView::ListTracks { remote_id: remote_of(s) }
            &&& s1.phase == Phase::Listing
            &&& s1.desired == Seq::<Seq<char>>::empty()
            &&& seeded(s1, current).remove_uris == current
            &&& seeded(s1, current).add_uris == Seq::<Seq<char>>::empty()
        }),
{
    lemma_minus_nothing(current);
}

proof fn lemma_minus_nothing(a: Seq<Seq<char>>)
    ensures
        minus(a, Seq::empty()) == a,
    decreases a.len(),
{
    if a.len() > 0 {
        lemma_minus_nothing(a.drop_last());
        assert(a.drop_last().push(a.last()) =~= a);
    }
}

/// Where there is no local playlist file, or it cannot be read, nothing is
/// known of the wanted tracks: the remote tracks are not asked for, and the
/// pass goes on to the track operations of the batch.
pub proof fn lemma_no_local_playlist_no_listing(p: PassView, s: StateView, resp: ResponseView)
    requires
        s.phase == Phase::ReadingLocal,
        !(resp is Texts),
    ensures
        pass_next(p, s, resp) == enter_ops(p, StateView { cursor: 0, ..s }),
{
}

/// A pass that does not get the lease ends at once and asks for nothing else.
pub proof fn lemma_no_lease_no_work(p: PassView, resp: ResponseView)
    requires
        resp != ResponseView::Flag(true),
    ensures
        pass_next(p, pass_begin(p).0, resp).1 == (RequestView::Finished { synced: false }),
{
}

/// A batch whose adds and removes cancel out leads to no request to add or
/// remove tracks: with no track operations and nothing to add or remove, the
/// pass goes from the track operations straight to marking the events.
pub proof fn lemma_nothing_to_apply(p: PassView, s: StateView)
    requires
        p.track_ops.len() == 0,
        s.add_uris.len() == 0,
        s.remove_uris.len() == 0,
        !s.failed,
    ensures
        enter_ops(p, s).1 == (RequestView::MarkSynced { ids: p.event_ids }),
{
}


/// The requests to add or remove tracks that a pass makes from the state `s`
/// on, within `steps` requests, while every request is answered `Done`.
pub open spec fn apply_run(p: PassView, s: StateView, steps: nat) -> Seq<RequestView>
    decreases steps,
{
    let (s1, q1) = enter_apply(p, s);
    if steps == 0 || s1.phase != Phase::Applying {
        Seq::empty()
    } else {
        seq![q1] + apply_run(p, past_batch(p, s1), (steps - 1) as nat)
    }
}

/// The tracks that the requests add, where `adds` is set, or remove, in the
/// order of the requests.
pub open spec fn uris_of(reqs: Seq<RequestView>, adds: bool) -> Seq<Seq<char>>
    decreases reqs.len(),
{
    if reqs.len() == 0 {
        Seq::empty()
    } else {
        let first = match reqs[0] {
            RequestView::AddTracks { remote_id, uris } => if adds {
                uris
            } else {
                Seq::empty()
            },
            RequestView::RemoveTracks { remote_id, uris } => if adds {
                Seq::empty()
            } else {
                uris
            },
            _ => Seq::empty(),
        };
        first + uris_of(reqs.drop_first(), adds)
    }
}

/// How many tracks are still to be sent from the state `s` on.
pub open spec fn tracks_left(s: StateView) -> int {
    if s.adding {
        s.add_uris.len() - s.cursor
    } else {
        s.remove_uris.len() - s.cursor + s.add_uris.len()
    }
}

/// While the provider answers every batch with `Done`, a pass sends every
/// track that is still to be removed, in order, and then every track that is
/// still to be added, in order, each once.
pub proof fn lemma_apply_sends_all(p: PassView, s: StateView, steps: nat)
    requires
        s.add_uris.len() <= usize::MAX,
        s.remove_uris.len() <= usize::MAX,
        s.cursor <= current_uris(s).len(),
        steps >= tracks_left(s),
    ensures
        uris_of(apply_run(p, s, steps), false) == if s.adding {
            Seq::<Seq<char>>::empty()
        } else {
            s.remove_uris.skip(s.cursor as int)
        },
        uris_of(apply_run(p, s, steps), true) == if s.adding {
            s.add_uris.skip(s.cursor as int)
        } else {
            s.add_uris
        },
    decreases steps,
{
    let (s1, q1) = enter_apply(p, s);
    let size = step_size(p);
    if s1.phase != Phase::Applying {
        assert(apply_run(p, s, steps) =~= Seq::<RequestView>::empty());
        if s.adding {
            assert(s.add_uris.skip(s.cursor as int) =~= Seq::<Seq<char>>::empty());
        } else {
            assert(s.remove_uris.skip(s.cursor as int) =~= Seq::<Seq<char>>::empty());
            assert(s.add_uris =~= Seq::<Seq<char>>::empty());
        }
    } else {
        let list = current_uris(s1);
        let c = s1.cursor as int;
        let e = batch_end(list.len() as int, c, size);
        let s2 = past_batch(p, s1);
        assert(c < e <= list.len());
        assert(s2.cursor == e);
        assert(steps > 0);
        lemma_apply_sends_all(p, s2, (steps - 1) as nat);
        let rest = apply_run(p, s2, (steps - 1) as nat);
        let run = apply_run(p, s, steps);
        assert(run == seq![q1] + rest);
        assert(run.drop_first() =~= rest);
        assert(run[0] == q1);
        assert(list.subrange(c, e) + list.skip(e) =~= list.skip(c));
        if s.adding {
            assert(uris_of(run, false) =~= Seq::<Seq<char>>::empty());
        } else if s.cursor < s.remove_uris.len() {
            assert(Seq::<Seq<char>>::empty() + uris_of(rest, true) =~= uris_of(rest, true));
        } else {
            assert(s.remove_uris.skip(s.cursor as int) =~= Seq::<Seq<char>>::empty());
            assert(list.skip(0) =~= list);
            assert(uris_of(run, false) =~= Seq::<Seq<char>>::empty());
        }
    }
}


proof fn lemma_minus_is_shorter(a: Seq<Seq<char>>, b: Seq<Seq<char>>)
    ensures
        minus(a, b).len() <= a.len(),
    decreases a.len(),
{
    if a.len() > 0 {
        lemma_minus_is_shorter(a.drop_last(), b);
    }
}

/// The state in which a pass applies the difference between the wanted
/// tracks and the remote tracks `current`.
pub open spec fn seeded(s: StateView, current: Seq<Seq<char>>) -> StateView {
    StateView {
        cursor: 0,
        adding: false,
        resolver: None,
        add_uris: minus(s.desired, current),
        remove_uris: minus(current, s.desired),
        ..s
    }
}

/// Where a batch holds no change of a track, the pass that is told the
/// remote tracks goes on to apply the difference to the wanted tracks; and
/// where the provider answers every batch with `Done`, the remote tracks are
/// then exactly the wanted ones.
pub proof fn lemma_pass_reaches_desired(
    p: PassView,
    s: StateView,
    current: Seq<Seq<char>>,
    steps: nat,
)
    requires
        s.phase == Phase::Listing,
        p.track_ops.len() == 0,
        s.desired.len() <= usize::MAX,
        current.len() <= usize::MAX,
        steps >= s.desired.len() + current.len(),
    ensures
        pass_next(p, s, ResponseView::Texts(current)) == enter_apply(p, seeded(s, current)),
        ({
            let run = apply_run(p, seeded(s, current), steps);
            current.to_set().difference(uris_of(run, false).to_set()).union(
                uris_of(run, true).to_set(),
            ) == s.desired.to_set()
        }),
{
    let s0 = seeded(s, current);
    lemma_minus_is_shorter(s.desired, current);
    lemma_minus_is_shorter(current, s.desired);
    lemma_apply_sends_all(p, s0, steps);
    assert(s0.remove_uris.skip(0) =~= s0.remove_uris);
    lemma_diff_reaches_desired(s.desired, current);
}

} // verus!
