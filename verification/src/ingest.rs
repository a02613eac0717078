//! From notices of the file system to events on the queue.
//!
//! A notice is first told apart into events on files and folders. Each event
//! is taken into the tree, which gives logical operations. Each logical
//! operation has effects: folders whose playlist file is to be rewritten once
//! things are quiet, events to put on the queue, and a playlist file to
//! rename. A change of a track counts for its folder and for every watched
//! folder above it, up to the root.
use crate::config::Config;
use crate::json::{rename_extra, rename_json};
use crate::models::{opt_text, texts, ActionView, EventAction};
use crate::paths::{
    file_name, file_name_of, is_smb_temp_path, is_temp_path, is_under, join, joined,
    lemma_parent_shorter, matches_extensions, parent, parent_of, path_is_under,
    path_matches_extensions, path_relative_to, relative_to,
};
use crate::text::{chars_of, has_suffix, same_text, string_of};
use crate::util::{expand_chars, expanded};
use crate::watcher::{
    allowed_by, InMemoryTree, LogicalOp, LogicalView, SyntheticEvent,
    SyntheticView, TreeView,
};
use vstd::prelude::*;

verus! {

/// What a notice of a removal says was removed.
#[derive(Debug, Clone, Copy, PartialEq, Eq, Structural)]
pub enum RemoveKind {
    File,
    Folder,
    Any,
    Other,
}

/// What a notice says happened.
#[derive(Debug, Clone, Copy, PartialEq, Eq, Structural)]
pub enum NoticeKind {
    Create,
    Modify,
    Remove(RemoveKind),
    Other,
}

/// A path of a notice, with what the file system says of it now.
#[derive(Debug, Clone, PartialEq, Eq)]
pub struct SeenPath {
    pub path: String,
    pub is_file: bool,
    pub is_dir: bool,
}

/// A path of a notice as contracts see it.
pub struct SeenView {
    pub path: Seq<char>,
    pub is_file: bool,
    pub is_dir: bool,
}

impl View for SeenPath {
    type V = SeenView;

    open spec fn view(&self) -> SeenView {
        SeenView { path: self.path@, is_file: self.is_file, is_dir: self.is_dir }
    }
}

/// Paths of a notice as contracts see them.
pub open spec fn seen_views(v: Seq<SeenPath>) -> Seq<SeenView> {
    v.map_values(|p: SeenPath| p@)
}

/// Events as contracts see them.
pub open spec fn synthetic_views(v: Seq<SyntheticEvent>) -> Seq<SyntheticView> {
    v.map_values(|e: SyntheticEvent| e@)
}

/// The event that a notice with one path stands for, if any. A temporary
/// path gives none. A file counts only with an extension for tracks. Where
/// the path of a removal is gone, the notice's word on what was removed
/// decides.
pub open spec fn event_of_path(kind: NoticeKind, p: SeenView, exts: Seq<Seq<char>>) -> Option<
    SyntheticView,
> {
    let track = matches_extensions(p.path, exts);
    if is_temp_path(p.path) {
        None
    } else {
        match kind {
            NoticeKind::Create => if p.is_file {
                if track {
                    Some(SyntheticView::FileCreate(p.path))
                } else {
                    None
                }
            } else if p.is_dir {
                Some(SyntheticView::FolderCreate(p.path))
            } else {
                None
            },
            NoticeKind::Modify => if p.is_file && track {
                Some(SyntheticView::FileCreate(p.path))
            } else {
                None
            },
            NoticeKind::Remove(what) => if p.is_file {
                if track {
                    Some(SyntheticView::FileRemove(p.path))
                } else {
                    None
                }
            } else if p.is_dir {
                Some(SyntheticView::FolderRemove(p.path))
            } else if what == RemoveKind::Folder {
                Some(SyntheticView::FolderRemove(p.path))
            } else if (what == RemoveKind::File || what == RemoveKind::Any) && track {
                Some(SyntheticView::FileRemove(p.path))
            } else {
                None
            },
            NoticeKind::Other => None,
        }
    }
}

/// The events that a notice stands for. A notice with two paths is a rename,
/// of a folder where one of the paths is a watched folder, else of a file.
pub open spec fn events_of_notice(
    t: TreeView,
    kind: NoticeKind,
    paths: Seq<SeenView>,
    exts: Seq<Seq<char>>,
) -> Seq<SyntheticView> {
    if paths.len() >= 2 {
        let from = paths[0].path;
        let to = paths[1].path;
        if is_temp_path(from) || is_temp_path(to) {
            Seq::empty()
        } else if t.nodes.contains_key(from) || t.nodes.contains_key(to) {
            seq![SyntheticView::FolderRename { from, to }]
        } else {
            seq![SyntheticView::FileRename { from, to }]
        }
    } else if paths.len() == 1 {
        match event_of_path(kind, paths[0], exts) {
            Some(e) => seq![e],
            None => Seq::empty(),
        }
    } else {
        Seq::empty()
    }
}

fn one_event(kind: NoticeKind, p: &SeenPath, exts: &Vec<String>) -> (r: Option<SyntheticEvent>)
    ensures
        match r {
            Some(e) => event_of_path(kind, p@, texts(exts@)) == Some(e@),
            None => event_of_path(kind, p@, texts(exts@)) is None,
        },
{
    if is_smb_temp_path(p.path.as_str()) {
        return None;
    }
    let track = path_matches_extensions(p.path.as_str(), exts);
    match kind {
        NoticeKind::Create => {
            if p.is_file {
                if track {
                    Some(SyntheticEvent::FileCreate(p.path.clone()))
                } else {
                    None
                }
            } else if p.is_dir {
                Some(SyntheticEvent::FolderCreate(p.path.clone()))
            } else {
                None
            }
        },
        NoticeKind::Modify => {
            if p.is_file && track {
                Some(SyntheticEvent::FileCreate(p.path.clone()))
            } else {
                None
            }
        },
        NoticeKind::Remove(what) => {
            if p.is_file {
                if track {
                    Some(SyntheticEvent::FileRemove(p.path.clone()))
                } else {
                    None
                }
            } else if p.is_dir {
                Some(SyntheticEvent::FolderRemove(p.path.clone()))
            } else if what == RemoveKind::Folder {
                Some(SyntheticEvent::FolderRemove(p.path.clone()))
            } else if (what == RemoveKind::File || what == RemoveKind::Any) && track {
                Some(SyntheticEvent::FileRemove(p.path.clone()))
            } else {
                None
            }
        },
        NoticeKind::Other => None,
    }
}

/// Tells a notice of the file system apart into events.
pub fn synthetic_events(
    tree: &InMemoryTree,
    kind: NoticeKind,
    paths: &Vec<SeenPath>,
    file_extensions: &Vec<String>,
) -> (r: Vec<SyntheticEvent>)
    ensures
        synthetic_views(r@) == events_of_notice(
            tree@,
            kind,
            seen_views(paths@),
            texts(file_extensions@),
        ),
{
    let mut r: Vec<SyntheticEvent> = Vec::new();
    assert(synthetic_views(r@) =~= Seq::<SyntheticView>::empty());
    if paths.len() >= 2 {
        let from = &paths[0].path;
        let to = &paths[1].path;
        if is_smb_temp_path(from.as_str()) || is_smb_temp_path(to.as_str()) {
            return r;
        }
        if tree.contains_node(from.as_str()) || tree.contains_node(to.as_str()) {
            r.push(SyntheticEvent::FolderRename { from: from.clone(), to: to.clone() });
            assert(synthetic_views(r@) =~= seq![
                SyntheticView::FolderRename { from: from@, to: to@ },
            ]);
        } else {
            r.push(SyntheticEvent::FileRename { from: from.clone(), to: to.clone() });
            assert(synthetic_views(r@) =~= seq![
                SyntheticView::FileRename { from: from@, to: to@ },
            ]);
        }
    } else if paths.len() == 1 {
        match one_event(kind, &paths[0], file_extensions) {
            Some(e) => {
                let ghost ev = e@;
                r.push(e);
                assert(synthetic_views(r@) =~= seq![ev]);
            },
            None => {},
        }
    }
    r
}

/// Whether an event speaks of the path `p`.
pub open spec fn mentions(e: SyntheticView, p: Seq<char>) -> bool {
    match e {
        SyntheticView::FileCreate(q) => q == p,
        SyntheticView::FileRemove(q) => q == p,
        SyntheticView::FileRename { from, to } => from == p || to == p,
        SyntheticView::FolderRename { from, to } => from == p || to == p,
        SyntheticView::FolderCreate(q) => q == p,
        SyntheticView::FolderRemove(q) => q == p,
    }
}

/// No event that a notice stands for speaks of a temporary path.
pub proof fn lemma_no_temp_paths(
    t: TreeView,
    kind: NoticeKind,
    paths: Seq<SeenView>,
    exts: Seq<Seq<char>>,
    p: Seq<char>,
)
    requires
        is_temp_path(p),
    ensures
        forall|i: int|
            0 <= i < events_of_notice(t, kind, paths, exts).len() ==> !mentions(
                #[trigger] events_of_notice(t, kind, paths, exts)[i],
                p,
            ),
{
}

/// The watched folders from `p` upwards, as far as the root.
pub open spec fn watched_from(
    nodes: Map<Seq<char>, crate::watcher::NodeView>,
    root: Seq<char>,
    p: Seq<char>,
) -> Seq<Seq<char>>
    decreases p.len(),
{
    if !is_under(p, root) {
        Seq::empty()
    } else {
        let here = if nodes.contains_key(p) {
            seq![p]
        } else {
            Seq::empty()
        };
        if p == root {
            here
        } else {
            match parent_of(p) {
                Some(q) => {
                    proof {
                        lemma_parent_shorter(p);
                    }
                    here + watched_from(nodes, root, q)
                },
                None => here,
            }
        }
    }
}

/// The watched folders above `folder`, nearest first, as far as the root.
pub open spec fn watched_above(
    nodes: Map<Seq<char>, crate::watcher::NodeView>,
    root: Seq<char>,
    folder: Seq<char>,
) -> Seq<Seq<char>> {
    match parent_of(folder) {
        Some(q) => watched_from(nodes, root, q),
        None => Seq::empty(),
    }
}

/// The path from the root to the parent of the folder with the relative path
/// `rel`, followed by `/`; empty for a folder right below the root.
pub open spec fn path_to_parent_of(rel: Seq<char>) -> Seq<char> {
    match parent_of(rel) {
        Some(q) => if q.len() == 0 || has_suffix(q, seq!['/']) {
            q
        } else {
            q.push('/')
        },
        None => Seq::empty(),
    }
}

/// The key of the playlist of a folder: its path as seen from the root.
pub open spec fn playlist_key(cfg: Config, folder: Seq<char>) -> Seq<char> {
    relative_to(folder, cfg.root_folder@)
}

/// The path of the local playlist file of a folder.
pub open spec fn local_playlist_path(cfg: Config, folder: Seq<char>) -> Seq<char> {
    joined(
        folder,
        expanded(
            cfg.local_playlist_template@,
            file_name_of(folder),
            path_to_parent_of(playlist_key(cfg, folder)),
        ),
    )
}

/// An event to put on the queue.
#[derive(Debug, Clone, PartialEq, Eq)]
pub struct Queued {
    pub playlist_name: String,
    pub action: EventAction,
    pub track_path: Option<String>,
    pub extra: Option<String>,
}

/// An event to queue as contracts see it.
pub struct QueuedView {
    pub playlist_name: Seq<char>,
    pub action: ActionView,
    pub track_path: Option<Seq<char>>,
    pub extra: Option<Seq<char>>,
}

impl View for Queued {
    type V = QueuedView;

    open spec fn view(&self) -> QueuedView {
        QueuedView {
            playlist_name: self.playlist_name@,
            action: self.action@,
            track_path: opt_text(self.track_path),
            extra: opt_text(self.extra),
        }
    }
}

/// What a logical operation leads to.
#[derive(Debug, Clone, PartialEq, Eq)]
pub struct Effects {
    /// The folders whose playlist file is to be rewritten once things are
    /// quiet.
    pub debounce: Vec<String>,
    /// The events to put on the queue.
    pub enqueue: Vec<Queued>,
    /// The playlist file to rename, from the first path to the second.
    pub rename_file: Option<(String, String)>,
}

/// Effects as contracts see them.
pub struct EffectsView {
    pub debounce: Seq<Seq<char>>,
    pub enqueue: Seq<QueuedView>,
    pub rename_file: Option<(Seq<char>, Seq<char>)>,
}

/// Events to queue as contracts see them.
pub open spec fn queued_views(v: Seq<Queued>) -> Seq<QueuedView> {
    v.map_values(|q: Queued| q@)
}

impl View for Effects {
    type V = EffectsView;

    open spec fn view(&self) -> EffectsView {
        EffectsView {
            debounce: texts(self.debounce@),
            enqueue: queued_views(self.enqueue@),
            rename_file: match self.rename_file {
                Some((a, b)) => Some((a@, b@)),
                None => None,
            },
        }
    }
}

/// No effects.
pub open spec fn no_effects() -> EffectsView {
    EffectsView { debounce: Seq::empty(), enqueue: Seq::empty(), rename_file: None }
}

/// The event for a change of the track `track` on the playlist of `folder`.
pub open spec fn track_event(cfg: Config, folder: Seq<char>, add: bool, track: Seq<char>) -> QueuedView {
    QueuedView {
        playlist_name: playlist_key(cfg, folder),
        action: if add {
            ActionView::Add
        } else {
            ActionView::Remove
        },
        track_path: Some(track),
        extra: None,
    }
}

/// The effects of a logical operation.
pub open spec fn effects(t: TreeView, cfg: Config, op: LogicalView) -> EffectsView {
    let root = cfg.root_folder@;
    match op {
        LogicalView::Add { playlist_folder, track_path } => if allowed_by(
            t.whitelist,
            playlist_folder,
        ) {
            let targets = seq![playlist_folder] + watched_above(t.nodes, root, playlist_folder);
            EffectsView {
                debounce: targets,
                enqueue: targets.map_values(
                    |f: Seq<char>| track_event(cfg, f, true, track_path),
                ),
                rename_file: None,
            }
        } else {
            no_effects()
        },
        LogicalView::Remove { playlist_folder, track_path } => if allowed_by(
            t.whitelist,
            playlist_folder,
        ) {
            let targets = seq![playlist_folder] + watched_above(t.nodes, root, playlist_folder);
            EffectsView {
                debounce: targets,
                enqueue: targets.map_values(
                    |f: Seq<char>| track_event(cfg, f, false, track_path),
                ),
                rename_file: None,
            }
        } else {
            no_effects()
        },
        LogicalView::Create { playlist_folder } => EffectsView {
            debounce: seq![playlist_folder] + watched_above(t.nodes, root, playlist_folder),
            enqueue: Seq::empty(),
            rename_file: None,
        },
        LogicalView::Delete { playlist_folder } => if allowed_by(t.whitelist, playlist_folder) {
            EffectsView {
                debounce: watched_above(t.nodes, root, playlist_folder),
                enqueue: seq![
                    QueuedView {
                        playlist_name: playlist_key(cfg, playlist_folder),
                        action: ActionView::Delete,
                        track_path: None,
                        extra: None,
                    },
                ],
                rename_file: None,
            }
        } else {
            no_effects()
        },
        LogicalView::PlaylistRename { from_folder, to_folder } => if allowed_by(
            t.whitelist,
            from_folder,
        ) {
            let from_key = playlist_key(cfg, from_folder);
            let to_key = playlist_key(cfg, to_folder);
            let from_file = local_playlist_path(cfg, from_folder);
            let to_file = local_playlist_path(cfg, to_folder);
            EffectsView {
                debounce: seq![from_folder, to_folder] + watched_above(t.nodes, root, from_folder)
                    + watched_above(t.nodes, root, to_folder),
                enqueue: seq![
                    QueuedView {
                        playlist_name: from_key,
                        action: ActionView::Rename { from: from_key, to: to_key },
                        track_path: None,
                        extra: Some(rename_json(from_key, to_key)),
                    },
                ],
                rename_file: if from_file != to_file {
                    Some((from_file, to_file))
                } else {
                    None
                },
            }
        } else {
            no_effects()
        },
    }
}

fn watched_upwards(tree: &InMemoryTree, root: &Vec<char>, p: Vec<char>) -> (r: Vec<String>)
    ensures
        texts(r@) == watched_from(tree@.nodes, root@, p@),
    decreases p@.len(),
{
    if !path_is_under(&p, root) {
        let r: Vec<String> = Vec::new();
        assert(texts(r@) =~= Seq::<Seq<char>>::empty());
        return r;
    }
    let s = string_of(&p);
    let here = tree.contains_node(s.as_str());
    let mut r: Vec<String> = if same_text(&p, root) {
        Vec::new()
    } else {
        match parent(&p) {
            Some(q) => {
                proof {
                    lemma_parent_shorter(p@);
                }
                watched_upwards(tree, root, q)
            },
            None => Vec::new(),
        }
    };
    let ghost rest = texts(r@);
    if here {
        r.insert(0, s);
        assert(texts(r@) =~= seq![p@] + rest);
    } else {
        assert(texts(r@) =~= Seq::<Seq<char>>::empty() + rest);
    }
    r
}

fn watched_parents(tree: &InMemoryTree, root: &Vec<char>, folder: &str) -> (r: Vec<String>)
    ensures
        texts(r@) == watched_above(tree@.nodes, root@, folder@),
{
    match parent(&chars_of(folder)) {
        Some(q) => watched_upwards(tree, root, q),
        None => {
            let r: Vec<String> = Vec::new();
            assert(texts(r@) =~= Seq::<Seq<char>>::empty());
            r
        },
    }
}

/// Gives the key of the playlist of a folder.
pub fn key_of_folder(cfg: &Config, folder: &str) -> (r: String)
    ensures
        r@ == playlist_key(*cfg, folder@),
{
    string_of(&path_relative_to(&chars_of(folder), &chars_of(cfg.root_folder.as_str())))
}

/// Gives the path of the local playlist file of a folder.
pub fn playlist_file_of(cfg: &Config, folder: &str) -> (r: String)
    ensures
        r@ == local_playlist_path(*cfg, folder@),
{
    let f = chars_of(folder);
    let rel = path_relative_to(&f, &chars_of(cfg.root_folder.as_str()));
    let to_parent = match parent(&rel) {
        Some(q) => {
            let mut q = q;
            if q.len() > 0 && q[q.len() - 1] != '/' {
                proof {
                    let tail = q@.subrange(q@.len() - 1, q@.len() as int);
                    assert(tail[0] == q@[q@.len() - 1]);
                    assert(seq!['/'][0] == '/');
                }
                q.push('/');
            } else if q.len() > 0 {
                proof {
                    let tail = q@.subrange(q@.len() - 1, q@.len() as int);
                    assert(tail =~= seq!['/']);
                }
            }
            q
        },
        None => Vec::new(),
    };
    let name = expand_chars(&chars_of(cfg.local_playlist_template.as_str()), &file_name(&f), &to_parent);
    string_of(&join(&f, &name))
}

fn track_events(cfg: &Config, targets: &Vec<String>, add: bool, track: &str) -> (r: Vec<Queued>)
    ensures
        queued_views(r@) == texts(targets@).map_values(
            |f: Seq<char>| track_event(*cfg, f, add, track@),
        ),
{
    let mut r: Vec<Queued> = Vec::new();
    let mut i: usize = 0;
    while i < targets.len()
        invariant
            i <= targets.len(),
            r@.len() == i,
            forall|j: int|
                0 <= j < i ==> (#[trigger] r@[j])@ == track_event(*cfg, targets@[j]@, add, track@),
        decreases targets.len() - i,
    {
        let action = if add {
            EventAction::Add
        } else {
            EventAction::Remove
        };
        r.push(
            Queued {
                playlist_name: key_of_folder(cfg, targets[i].as_str()),
                action,
                track_path: Some(String::from_str(track)),
                extra: None,
            },
        );
        i += 1;
    }
    assert(queued_views(r@) =~= texts(targets@).map_values(
        |f: Seq<char>| track_event(*cfg, f, add, track@),
    ));
    r
}

fn nothing() -> (r: Effects)
    ensures
        r@ == no_effects(),
{
    let r = Effects { debounce: Vec::new(), enqueue: Vec::new(), rename_file: None };
    assert(texts(r.debounce@) =~= Seq::<Seq<char>>::empty());
    assert(queued_views(r.enqueue@) =~= Seq::<QueuedView>::empty());
    r
}

fn append_strings(out: &mut Vec<String>, mut tail: Vec<String>)
    ensures
        texts(final(out)@) == texts(old(out)@) + texts(tail@),
{
    let ghost t = texts(tail@);
    let ghost o = texts(out@);
    out.append(&mut tail);
    assert(texts(out@) =~= o + t);
}

/// Gives the effects of a logical operation.
pub fn effects_of(tree: &InMemoryTree, cfg: &Config, op: &LogicalOp) -> (r: Effects)
    ensures
        r@ == effects(tree@, *cfg, op@),
{
    let root = chars_of(cfg.root_folder.as_str());
    match op {
        LogicalOp::Add { playlist_folder, track_path } => {
            if !tree.allows(playlist_folder.as_str()) {
                return nothing();
            }
            let mut targets: Vec<String> = Vec::new();
            targets.push(playlist_folder.clone());
            assert(texts(targets@) =~= seq![playlist_folder@]);
            append_strings(&mut targets, watched_parents(tree, &root, playlist_folder.as_str()));
            let enqueue = track_events(cfg, &targets, true, track_path.as_str());
            Effects { debounce: targets, enqueue, rename_file: None }
        },
        LogicalOp::Remove { playlist_folder, track_path } => {
            if !tree.allows(playlist_folder.as_str()) {
                return nothing();
            }
            let mut targets: Vec<String> = Vec::new();
            targets.push(playlist_folder.clone());
            assert(texts(targets@) =~= seq![playlist_folder@]);
            append_strings(&mut targets, watched_parents(tree, &root, playlist_folder.as_str()));
            let enqueue = track_events(cfg, &targets, false, track_path.as_str());
            Effects { debounce: targets, enqueue, rename_file: None }
        },
        LogicalOp::Create { playlist_folder } => {
            let mut targets: Vec<String> = Vec::new();
            targets.push(playlist_folder.clone());
            assert(texts(targets@) =~= seq![playlist_folder@]);
            append_strings(&mut targets, watched_parents(tree, &root, playlist_folder.as_str()));
            let r = Effects { debounce: targets, enqueue: Vec::new(), rename_file: None };
            assert(queued_views(r.enqueue@) =~= Seq::<QueuedView>::empty());
            r
        },
        LogicalOp::Delete { playlist_folder } => {
            if !tree.allows(playlist_folder.as_str()) {
                return nothing();
            }
            let debounce = watched_parents(tree, &root, playlist_folder.as_str());
            let mut enqueue: Vec<Queued> = Vec::new();
            let q = Queued {
                playlist_name: key_of_folder(cfg, playlist_folder.as_str()),
                action: EventAction::Delete,
                track_path: None,
                extra: None,
            };
            let ghost qv = q@;
            enqueue.push(q);
            assert(queued_views(enqueue@) =~= seq![qv]);
            Effects { debounce, enqueue, rename_file: None }
        },
        LogicalOp::PlaylistRename { from_folder, to_folder } => {
            if !tree.allows(from_folder.as_str()) {
                return nothing();
            }
            let from_key = key_of_folder(cfg, from_folder.as_str());
            let to_key = key_of_folder(cfg, to_folder.as_str());
            let from_file = playlist_file_of(cfg, from_folder.as_str());
            let to_file = playlist_file_of(cfg, to_folder.as_str());
            let mut debounce: Vec<String> = Vec::new();
            debounce.push(from_folder.clone());
            debounce.push(to_folder.clone());
            assert(texts(debounce@) =~= seq![from_folder@, to_folder@]);
            append_strings(&mut debounce, watched_parents(tree, &root, from_folder.as_str()));
            append_strings(&mut debounce, watched_parents(tree, &root, to_folder.as_str()));
            let extra = rename_extra(from_key.as_str(), to_key.as_str());
            let mut enqueue: Vec<Queued> = Vec::new();
            let q = Queued {
                playlist_name: from_key.clone(),
                action: EventAction::Rename { from: from_key, to: to_key },
                track_path: None,
                extra: Some(extra),
            };
            let ghost qv = q@;
            enqueue.push(q);
            assert(queued_views(enqueue@) =~= seq![qv]);
            let rename_file = if from_file != to_file {
                Some((from_file, to_file))
            } else {
                None
            };
            Effects { debounce, enqueue, rename_file }
        },
    }
}

} // verus!
