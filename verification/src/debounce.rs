//! Waiting until a folder is quiet before its playlist file is rewritten.
use crate::config::Config;
use crate::ingest::{
    key_of_folder, local_playlist_path, playlist_file_of, playlist_key, Queued, QueuedView,
};
use crate::models::{texts, ActionView, EventAction};
use crate::table::{by_first, key_views, Table};
use crate::text::same_str;
use crate::watcher::{allowed_by, InMemoryTree};
use vstd::prelude::*;

verus! {

/// The folders that wait, each with the time at which its wait is over. Times
/// are in milliseconds.
#[derive(Debug, Clone)]
pub struct Debouncer {
    due: Table<u64>,
}

impl View for Debouncer {
    type V = Map<Seq<char>, u64>;

    closed spec fn view(&self) -> Map<Seq<char>, u64> {
        by_first(self.due@, |d: u64| d)
    }
}

/// `now + wait`, and the greatest time where that is beyond it.
pub open spec fn due_time(now: u64, wait: u64) -> u64 {
    if now + wait > u64::MAX {
        u64::MAX
    } else {
        (now + wait) as u64
    }
}

/// The folders that still wait at the time `now`.
pub open spec fn still_waiting(m: Map<Seq<char>, u64>, now: u64) -> Map<Seq<char>, u64> {
    Map::new(|f: Seq<char>| m.contains_key(f) && m[f] > now, |f: Seq<char>| m[f])
}

spec fn gone(
    kv: Seq<(Seq<char>, Seq<char>)>,
    i: int,
    m: Map<(Seq<char>, Seq<char>), u64>,
    now: u64,
    k: (Seq<char>, Seq<char>),
) -> bool {
    exists|j: int| 0 <= j < i && #[trigger] kv[j] == k && k.1.len() == 0 && m[k] <= now
}

impl Debouncer {
    /// No folder waits.
    pub fn new() -> (r: Debouncer)
        ensures
            r@ == Map::<Seq<char>, u64>::empty(),
    {
        let r = Debouncer { due: Table::new() };
        assert(r@ =~= Map::<Seq<char>, u64>::empty());
        r
    }

    /// Lets `folder` wait for `debounce_ms` from `now_ms` on; a wait that was
    /// running for it begins anew.
    pub fn schedule(&mut self, folder: &str, now_ms: u64, debounce_ms: u64)
        ensures
            final(self)@ == old(self)@.insert(folder@, due_time(now_ms, debounce_ms)),
    {
        let due = match now_ms.checked_add(debounce_ms) {
            Some(d) => d,
            None => u64::MAX,
        };
        self.due.put(String::from_str(folder), String::new(), due);
        assert(self@ =~= old(self)@.insert(folder@, due_time(now_ms, debounce_ms)));
    }

    /// Whether `folder` waits.
    pub fn is_waiting(&self, folder: &str) -> (r: bool)
        ensures
            r == self@.contains_key(folder@),
    {
        proof {
            reveal_strlit("");
            assert(""@ =~= Seq::<char>::empty());
        }
        self.due.get(folder, "").is_some()
    }

    /// Gives the folders whose wait is over at the time `now_ms`, each once,
    /// and lets them wait no longer.
    pub fn take_due(&mut self, now_ms: u64) -> (r: Vec<String>)
        ensures
            texts(r@).no_duplicates(),
            forall|f: Seq<char>|
                texts(r@).contains(f) <==> (old(self)@.contains_key(f) && old(self)@[f] <= now_ms),
            final(self)@ == still_waiting(old(self)@, now_ms),
    {
        let keys = self.due.keys();
        let ghost kv = key_views(keys@);
        let ghost m0 = self.due@;
        let mut r: Vec<String> = Vec::new();
        let mut i: usize = 0;
        proof {
            reveal_strlit("");
            assert(""@ =~= Seq::<char>::empty());
            assert(self.due@ =~= Map::new(
                |k: (Seq<char>, Seq<char>)| m0.contains_key(k) && !gone(kv, 0, m0, now_ms, k),
                |k: (Seq<char>, Seq<char>)| m0[k],
            ));
        }
        while i < keys.len()
            invariant
                i <= keys.len(),
                kv == key_views(keys@),
                kv.no_duplicates(),
                ""@ == Seq::<char>::empty(),
                forall|k: (Seq<char>, Seq<char>)| kv.contains(k) <==> m0.contains_key(k),
                self.due@ == Map::new(
                    |k: (Seq<char>, Seq<char>)|
                        m0.contains_key(k) && !gone(kv, i as int, m0, now_ms, k),
                    |k: (Seq<char>, Seq<char>)| m0[k],
                ),
                texts(r@).no_duplicates(),
                forall|f: Seq<char>|
                    texts(r@).contains(f) <==> gone(
                        kv,
                        i as int,
                        m0,
                        now_ms,
                        (f, Seq::<char>::empty()),
                    ),
            decreases keys.len() - i,
        {
            let key = &keys[i];
            let ghost k = kv[i as int];
            let ghost before = texts(r@);
            let ghost table_before = self.due@;
            proof {
                assert(kv.contains(k));
                assert(!gone(kv, i as int, m0, now_ms, k)) by {
                    if gone(kv, i as int, m0, now_ms, k) {
                        let j = choose|j: int|
                            0 <= j < i && #[trigger] kv[j] == k && k.1.len() == 0 && m0[k]
                                <= now_ms;
                        assert(kv[j] == kv[i as int]);
                    }
                }
            }
            let plain = key.b.as_str().unicode_len() == 0;
            let over = match self.due.get(key.a.as_str(), key.b.as_str()) {
                Some(d) => *d <= now_ms,
                None => false,
            };
            if plain && over {
                assert(k.1 =~= Seq::<char>::empty());
                self.due.remove(key.a.as_str(), key.b.as_str());
                r.push(key.a.clone());
                proof {
                    let after = texts(r@);
                    assert(after =~= before.push(k.0));
                    assert(gone(kv, i + 1, m0, now_ms, k));
                    assert forall|q: (Seq<char>, Seq<char>)|
                        gone(kv, i + 1, m0, now_ms, q) <==> (gone(kv, i as int, m0, now_ms, q)
                            || q == k) by {
                        if gone(kv, i as int, m0, now_ms, q) {
                            let j = choose|j: int|
                                0 <= j < i && #[trigger] kv[j] == q && q.1.len() == 0 && m0[q]
                                    <= now_ms;
                            assert(kv[j] == q);
                        }
                        if gone(kv, i + 1, m0, now_ms, q) && q != k {
                            let j = choose|j: int|
                                0 <= j < i + 1 && #[trigger] kv[j] == q && q.1.len() == 0 && m0[q]
                                    <= now_ms;
                            assert(j < i);
                        }
                    }
                    assert(self.due@ =~= Map::new(
                        |q: (Seq<char>, Seq<char>)|
                            m0.contains_key(q) && !gone(kv, i + 1, m0, now_ms, q),
                        |q: (Seq<char>, Seq<char>)| m0[q],
                    ));
                    assert(!before.contains(k.0)) by {
                        if before.contains(k.0) {
                            assert(gone(kv, i as int, m0, now_ms, (k.0, Seq::<char>::empty())));
                        }
                    }
                    assert forall|f: Seq<char>| after.contains(f) <==> gone(
                        kv,
                        i + 1,
                        m0,
                        now_ms,
                        (f, Seq::<char>::empty()),
                    ) by {
                        if before.contains(f) {
                            let q = choose|q: int| 0 <= q < before.len() && before[q] == f;
                            assert(after[q] == f);
                        }
                        if f == k.0 {
                            assert(after[after.len() - 1] == f);
                        }
                        if after.contains(f) {
                            let q = choose|q: int| 0 <= q < after.len() && after[q] == f;
                            if q < before.len() {
                                assert(before[q] == f);
                            }
                        }
                    }
                }
            } else {
                proof {
                    assert forall|q: (Seq<char>, Seq<char>)|
                        gone(kv, i + 1, m0, now_ms, q) <==> gone(kv, i as int, m0, now_ms, q) by {
                        if gone(kv, i as int, m0, now_ms, q) {
                            let j = choose|j: int|
                                0 <= j < i && #[trigger] kv[j] == q && q.1.len() == 0 && m0[q]
                                    <= now_ms;
                            assert(kv[j] == q);
                        }
                        if gone(kv, i + 1, m0, now_ms, q) {
                            let j = choose|j: int|
                                0 <= j < i + 1 && #[trigger] kv[j] == q && q.1.len() == 0 && m0[q]
                                    <= now_ms;
                            if j == i {
                                assert(q == k);
                                assert(table_before.contains_key(k));
                                assert(k.1 =~= Seq::<char>::empty());
                                assert(false);
                            }
                        }
                    }
                    assert(self.due@ =~= Map::new(
                        |q: (Seq<char>, Seq<char>)|
                            m0.contains_key(q) && !gone(kv, i + 1, m0, now_ms, q),
                        |q: (Seq<char>, Seq<char>)| m0[q],
                    ));
                }
            }
            i += 1;
        }
        proof {
            assert forall|q: (Seq<char>, Seq<char>)|
                gone(kv, keys.len() as int, m0, now_ms, q) <==> (m0.contains_key(q) && q.1.len()
                    == 0 && m0[q] <= now_ms) by {
                if gone(kv, keys.len() as int, m0, now_ms, q) {
                    let j = choose|j: int|
                        0 <= j < keys.len() && #[trigger] kv[j] == q && q.1.len() == 0 && m0[q]
                            <= now_ms;
                    assert(kv.contains(q));
                }
                if m0.contains_key(q) && q.1.len() == 0 && m0[q] <= now_ms {
                    assert(kv.contains(q));
                    let j = choose|j: int| 0 <= j < kv.len() && kv[j] == q;
                    assert(kv[j] == q);
                }
            }
            assert(self@ =~= still_waiting(old(self)@, now_ms));
        }
        r
    }
}

/// What is to be done for the playlist of one folder: its playlist file is
/// rewritten, flat or linked, and a creation is put on the queue under its
/// key.
#[derive(Debug, Clone, PartialEq, Eq)]
pub struct PlaylistJob {
    pub folder: String,
    pub playlist_path: String,
    pub key: String,
    /// Whether the playlist is flat; else it is linked.
    pub flat: bool,
}

/// A job as contracts see it.
pub struct JobView {
    pub folder: Seq<char>,
    pub playlist_path: Seq<char>,
    pub key: Seq<char>,
    pub flat: bool,
}

impl View for PlaylistJob {
    type V = JobView;

    open spec fn view(&self) -> JobView {
        JobView {
            folder: self.folder@,
            playlist_path: self.playlist_path@,
            key: self.key@,
            flat: self.flat,
        }
    }
}

/// Jobs as contracts see them.
pub open spec fn job_views(v: Seq<PlaylistJob>) -> Seq<JobView> {
    v.map_values(|j: PlaylistJob| j@)
}

/// The job for the playlist of a folder.
pub open spec fn job_of(cfg: Config, folder: Seq<char>) -> JobView {
    JobView {
        folder,
        playlist_path: local_playlist_path(cfg, folder),
        key: playlist_key(cfg, folder),
        flat: cfg.playlist_mode@ == "flat"@,
    }
}

/// Gives the job for the playlist of a folder.
pub fn playlist_job(cfg: &Config, folder: &str) -> (r: PlaylistJob)
    ensures
        r@ == job_of(*cfg, folder@),
{
    PlaylistJob {
        folder: String::from_str(folder),
        playlist_path: playlist_file_of(cfg, folder),
        key: key_of_folder(cfg, folder),
        flat: same_str(cfg.playlist_mode.as_str(), "flat"),
    }
}

/// The event that a job puts on the queue: a creation under the key of the
/// job's playlist.
pub open spec fn event_of_job(job: JobView) -> QueuedView {
    QueuedView {
        playlist_name: job.key,
        action: ActionView::Create,
        track_path: None,
        extra: None,
    }
}

/// Gives the event that a job puts on the queue once its playlist file is
/// rewritten.
pub fn job_event(job: &PlaylistJob) -> (q: Queued)
    ensures
        q@ == event_of_job(job@),
{
    Queued {
        playlist_name: job.key.clone(),
        action: EventAction::Create,
        track_path: None,
        extra: None,
    }
}

/// The jobs for those of the folders that the whitelist lets in, in order.
pub open spec fn jobs_for(
    cfg: Config,
    whitelist: Option<Seq<Seq<char>>>,
    folders: Seq<Seq<char>>,
) -> Seq<JobView>
    decreases folders.len(),
{
    if folders.len() == 0 {
        Seq::empty()
    } else if allowed_by(whitelist, folders.last()) {
        jobs_for(cfg, whitelist, folders.drop_last()).push(job_of(cfg, folders.last()))
    } else {
        jobs_for(cfg, whitelist, folders.drop_last())
    }
}

/// The jobs for the folders, in order.
pub open spec fn jobs_of(cfg: Config, folders: Seq<Seq<char>>) -> Seq<JobView> {
    folders.map_values(|f: Seq<char>| job_of(cfg, f))
}

/// Whether `folders` lists the watched folders of a tree, each once.
pub open spec fn lists_folders(folders: Seq<Seq<char>>, t: crate::watcher::TreeView) -> bool {
    folders.no_duplicates() && forall|p: Seq<char>| folders.contains(p) <==> t.nodes.contains_key(p)
}

/// Gives the jobs of a full sweep: one for each watched folder that the
/// whitelist lets in.
pub fn nightly_jobs(cfg: &Config, tree: &InMemoryTree) -> (r: Vec<PlaylistJob>)
    ensures
        exists|folders: Seq<Seq<char>>|
            lists_folders(folders, tree@) && job_views(r@) == #[trigger] jobs_for(
                *cfg,
                tree@.whitelist,
                folders,
            ),
{
    let folders = tree.folders();
    let ghost fs = texts(folders@);
    let mut r: Vec<PlaylistJob> = Vec::new();
    let mut i: usize = 0;
    assert(fs.take(0) =~= Seq::<Seq<char>>::empty());
    assert(job_views(r@) =~= jobs_for(*cfg, tree@.whitelist, fs.take(0)));
    while i < folders.len()
        invariant
            i <= folders.len(),
            fs == texts(folders@),
            job_views(r@) == jobs_for(*cfg, tree@.whitelist, fs.take(i as int)),
        decreases folders.len() - i,
    {
        proof {
            assert(fs.take(i + 1).drop_last() =~= fs.take(i as int));
            assert(fs.take(i + 1).last() == folders@[i as int]@);
        }
        if tree.allows(folders[i].as_str()) {
            let ghost before = job_views(r@);
            let job = playlist_job(cfg, folders[i].as_str());
            let ghost jv = job@;
            r.push(job);
            assert(job_views(r@) =~= before.push(jv));
        }
        i += 1;
    }
    assert(fs.take(folders.len() as int) =~= fs);
    r
}

/// Gives the jobs of the first pass of the watcher: one for each watched
/// folder.
pub fn initial_jobs(cfg: &Config, tree: &InMemoryTree) -> (r: Vec<PlaylistJob>)
    ensures
        exists|folders: Seq<Seq<char>>|
            lists_folders(folders, tree@) && job_views(r@) == #[trigger] jobs_of(*cfg, folders),
{
    let folders = tree.folders();
    let ghost fs = texts(folders@);
    let mut r: Vec<PlaylistJob> = Vec::new();
    let mut i: usize = 0;
    while i < folders.len()
        invariant
            i <= folders.len(),
            fs == texts(folders@),
            r@.len() == i,
            forall|j: int| 0 <= j < i ==> (#[trigger] r@[j])@ == job_of(*cfg, fs[j]),
        decreases folders.len() - i,
    {
        r.push(playlist_job(cfg, folders[i].as_str()));
        i += 1;
    }
    assert(job_views(r@) =~= jobs_of(*cfg, fs));
    r
}

} // verus!
