//! The tree of watched folders and what file-system events do to it.
use crate::models::texts;
use crate::names::NameSet;
use crate::pattern::{pattern_matches, regex_matches};
use crate::paths::{
    is_smb_temp_path, is_temp_path, is_under, lemma_parent_shorter, matches_extensions, parent,
    parent_of, path_is_under, path_matches_extensions,
};
use crate::table::{by_first, Table};
use crate::text::{chars_of, same_text, split_char, string_of, trim, trimmed, pieces};
use vstd::prelude::*;

verus! {

/// The patterns that a whitelist holds: its pieces between `:`, without the
/// white space around them, but for those that are empty then.
pub open spec fn patterns_of(whitelist: Seq<char>) -> Seq<Seq<char>> {
    nonblank(pieces(whitelist, ':'))
}

/// The texts of `ps` without the white space around them, but for those that
/// are empty then.
pub open spec fn nonblank(ps: Seq<Seq<char>>) -> Seq<Seq<char>>
    decreases ps.len(),
{
    if ps.len() == 0 {
        Seq::empty()
    } else if trimmed(ps.last()).len() == 0 {
        nonblank(ps.drop_last())
    } else {
        nonblank(ps.drop_last()).push(trimmed(ps.last()))
    }
}

/// Reads the patterns of a whitelist.
pub fn parse_whitelist(whitelist: &str) -> (r: Vec<String>)
    ensures
        texts(r@) == patterns_of(whitelist@),
{
    let parts = split_char(&chars_of(whitelist), ':');
    let ghost ps = pieces(whitelist@, ':');
    let mut r: Vec<String> = Vec::new();
    let mut i: usize = 0;
    assert(ps.take(0) =~= Seq::<Seq<char>>::empty());
    assert(texts(r@) =~= nonblank(ps.take(0)));
    while i < parts.len()
        invariant
            i <= parts.len(),
            ps == crate::text::text_views(parts@),
            texts(r@) == nonblank(ps.take(i as int)),
        decreases parts.len() - i,
    {
        proof {
            assert(ps.take(i + 1).drop_last() =~= ps.take(i as int));
            assert(ps.take(i + 1).last() == parts@[i as int]@);
        }
        let t = trim(&parts[i]);
        if t.len() > 0 {
            let ghost before = texts(r@);
            r.push(string_of(&t));
            assert(texts(r@) =~= before.push(t@));
        }
        i += 1;
    }
    assert(ps.take(parts.len() as int) =~= ps);
    r
}

/// Whether one of the results is a match.
pub open spec fn some_match(results: Seq<Option<bool>>) -> bool {
    exists|i: int| 0 <= i < results.len() && #[trigger] results[i] == Some(true)
}

/// Tells whether one of the results of matching is a match.
pub fn any_match(results: &Vec<Option<bool>>) -> (r: bool)
    ensures
        r == some_match(results@),
{
    let mut i: usize = 0;
    while i < results.len()
        invariant
            i <= results.len(),
            forall|j: int| 0 <= j < i ==> #[trigger] results@[j] != Some(true),
        decreases results.len() - i,
    {
        match results[i] {
            Some(true) => {
                return true;
            },
            _ => {},
        }
        i += 1;
    }
    false
}

/// Whether a whitelist lets a folder in: there is no whitelist, or one of its
/// patterns matches the folder's path.
pub open spec fn allowed_by(whitelist: Option<Seq<Seq<char>>>, path: Seq<char>) -> bool {
    match whitelist {
        None => true,
        Some(ps) => exists|i: int| 0 <= i < ps.len() && regex_matches(#[trigger] ps[i], path)
            == Some(true),
    }
}

/// A whitelist as contracts see it.
pub open spec fn whitelist_view(w: Option<Vec<String>>) -> Option<Seq<Seq<char>>> {
    match w {
        Some(ps) => Some(texts(ps@)),
        None => None,
    }
}

/// Tells whether a whitelist lets a folder in.
pub fn folder_allowed(whitelist: &Option<Vec<String>>, path: &str) -> (r: bool)
    ensures
        r == allowed_by(whitelist_view(*whitelist), path@),
{
    match whitelist {
        None => true,
        Some(ps) => {
            let mut results: Vec<Option<bool>> = Vec::new();
            let mut i: usize = 0;
            while i < ps.len()
                invariant
                    i <= ps.len(),
                    results@.len() == i,
                    forall|j: int|
                        0 <= j < i ==> #[trigger] results@[j] == regex_matches(
                            texts(ps@)[j],
                            path@,
                        ),
                decreases ps.len() - i,
            {
                results.push(pattern_matches(ps[i].as_str(), path));
                i += 1;
            }
            let r = any_match(&results);
            proof {
                if r {
                    let j = choose|j: int| 0 <= j < results@.len() && #[trigger] results@[j]
                        == Some(true);
                    assert(regex_matches(texts(ps@)[j], path@) == Some(true));
                }
                if allowed_by(whitelist_view(*whitelist), path@) {
                    let j = choose|j: int|
                        0 <= j < texts(ps@).len() && regex_matches(#[trigger] texts(ps@)[j], path@)
                            == Some(true);
                    assert(results@[j] == Some(true));
                }
            }
            r
        },
    }
}

/// One watched folder: the folders right below it and the tracks right in it.
#[derive(Debug, Clone)]
pub struct FolderNode {
    pub path: String,
    pub children: NameSet,
    pub tracks: NameSet,
}

/// A folder as contracts see it.
pub struct NodeView {
    pub path: Seq<char>,
    pub children: Set<Seq<char>>,
    pub tracks: Set<Seq<char>>,
}

impl View for FolderNode {
    type V = NodeView;

    open spec fn view(&self) -> NodeView {
        NodeView { path: self.path@, children: self.children@, tracks: self.tracks@ }
    }
}

/// The folder at `path` with nothing in it.
pub open spec fn empty_node(path: Seq<char>) -> NodeView {
    NodeView { path, children: Set::empty(), tracks: Set::empty() }
}

impl FolderNode {
    /// The folder at `path` with nothing in it.
    pub fn new(path: String) -> (r: FolderNode)
        ensures
            r@ == empty_node(path@),
    {
        FolderNode { path, children: NameSet::new(), tracks: NameSet::new() }
    }
}

/// An event of the file system, told apart by what it happened to.
#[derive(Debug, Clone, PartialEq, Eq)]
pub enum SyntheticEvent {
    FileCreate(String),
    FileRemove(String),
    FileRename { from: String, to: String },
    FolderRename { from: String, to: String },
    FolderCreate(String),
    FolderRemove(String),
}

/// What an event of the file system means for the playlists.
#[derive(Debug, Clone, PartialEq, Eq)]
pub enum LogicalOp {
    Add { playlist_folder: String, track_path: String },
    Remove { playlist_folder: String, track_path: String },
    Create { playlist_folder: String },
    Delete { playlist_folder: String },
    PlaylistRename { from_folder: String, to_folder: String },
}

/// An event of the file system as contracts see it.
pub enum SyntheticView {
    FileCreate(Seq<char>),
    FileRemove(Seq<char>),
    FileRename { from: Seq<char>, to: Seq<char> },
    FolderRename { from: Seq<char>, to: Seq<char> },
    FolderCreate(Seq<char>),
    FolderRemove(Seq<char>),
}

/// A logical operation as contracts see it.
pub enum LogicalView {
    Add { playlist_folder: Seq<char>, track_path: Seq<char> },
    Remove { playlist_folder: Seq<char>, track_path: Seq<char> },
    Create { playlist_folder: Seq<char> },
    Delete { playlist_folder: Seq<char> },
    PlaylistRename { from_folder: Seq<char>, to_folder: Seq<char> },
}

impl View for SyntheticEvent {
    type V = SyntheticView;

    open spec fn view(&self) -> SyntheticView {
        match self {
            SyntheticEvent::FileCreate(p) => SyntheticView::FileCreate(p@),
            SyntheticEvent::FileRemove(p) => SyntheticView::FileRemove(p@),
            SyntheticEvent::FileRename { from, to } => SyntheticView::FileRename {
                from: from@,
                to: to@,
            },
            SyntheticEvent::FolderRename { from, to } => SyntheticView::FolderRename {
                from: from@,
                to: to@,
            },
            SyntheticEvent::FolderCreate(p) => SyntheticView::FolderCreate(p@),
            SyntheticEvent::FolderRemove(p) => SyntheticView::FolderRemove(p@),
        }
    }
}

impl View for LogicalOp {
    type V = LogicalView;

    open spec fn view(&self) -> LogicalView {
        match self {
            LogicalOp::Add { playlist_folder, track_path } => LogicalView::Add {
                playlist_folder: playlist_folder@,
                track_path: track_path@,
            },
            LogicalOp::Remove { playlist_folder, track_path } => LogicalView::Remove {
                playlist_folder: playlist_folder@,
                track_path: track_path@,
            },
            LogicalOp::Create { playlist_folder } => LogicalView::Create {
                playlist_folder: playlist_folder@,
            },
            LogicalOp::Delete { playlist_folder } => LogicalView::Delete {
                playlist_folder: playlist_folder@,
            },
            LogicalOp::PlaylistRename { from_folder, to_folder } => LogicalView::PlaylistRename {
                from_folder: from_folder@,
                to_folder: to_folder@,
            },
        }
    }
}

/// Logical operations as contracts see them.
pub open spec fn logical_views(v: Seq<LogicalOp>) -> Seq<LogicalView> {
    v.map_values(|o: LogicalOp| o@)
}

/// The watched folders below a root.
#[derive(Debug, Clone)]
pub struct InMemoryTree {
    pub root: String,
    nodes: Table<FolderNode>,
    /// The patterns of the whitelist; `None` lets every folder in.
    pub whitelist: Option<Vec<String>>,
}

/// A tree as contracts see it.
pub struct TreeView {
    pub root: Seq<char>,
    /// The watched folders, by path.
    pub nodes: Map<Seq<char>, NodeView>,
    pub whitelist: Option<Seq<Seq<char>>>,
}

impl View for InMemoryTree {
    type V = TreeView;

    closed spec fn view(&self) -> TreeView {
        TreeView {
            root: self.root@,
            nodes: by_first(self.nodes@, |n: FolderNode| n@),
            whitelist: whitelist_view(self.whitelist),
        }
    }
}

/// The nearest folder, from `p` upwards and not above the root, that is
/// watched or that the whitelist lets in.
pub open spec fn nearest_folder(t: TreeView, p: Seq<char>) -> Option<Seq<char>>
    decreases p.len(),
{
    if !is_under(p, t.root) {
        None
    } else if t.nodes.contains_key(p) || allowed_by(t.whitelist, p) {
        Some(p)
    } else if p == t.root {
        None
    } else {
        match parent_of(p) {
            Some(q) => {
                proof {
                    lemma_parent_shorter(p);
                }
                nearest_folder(t, q)
            },
            None => None,
        }
    }
}

/// The playlist folder that a path belongs to: the nearest folder of the path
/// itself where it is a directory, else of the folder that holds it.
pub open spec fn folder_for(t: TreeView, path: Seq<char>, is_dir: bool) -> Option<Seq<char>> {
    if is_dir {
        nearest_folder(t, path)
    } else {
        match parent_of(path) {
            Some(q) => nearest_folder(t, q),
            None => None,
        }
    }
}

/// The folders with `track` put into `folder`; where `folder` is not watched
/// it is unchanged, or, with `create`, gets a new folder with that track.
pub open spec fn with_track(
    nodes: Map<Seq<char>, NodeView>,
    folder: Seq<char>,
    track: Seq<char>,
    create: bool,
) -> Map<Seq<char>, NodeView> {
    if nodes.contains_key(folder) {
        nodes.insert(
            folder,
            NodeView { tracks: nodes[folder].tracks.insert(track), ..nodes[folder] },
        )
    } else if create {
        nodes.insert(folder, NodeView { tracks: set![track], ..empty_node(folder) })
    } else {
        nodes
    }
}

/// The folders with `track` taken out of `folder`.
pub open spec fn without_track(
    nodes: Map<Seq<char>, NodeView>,
    folder: Seq<char>,
    track: Seq<char>,
) -> Map<Seq<char>, NodeView> {
    if nodes.contains_key(folder) {
        nodes.insert(
            folder,
            NodeView { tracks: nodes[folder].tracks.remove(track), ..nodes[folder] },
        )
    } else {
        nodes
    }
}

/// The folders with `child` noted below its parent, where that is watched.
pub open spec fn with_child(nodes: Map<Seq<char>, NodeView>, child: Seq<char>) -> Map<
    Seq<char>,
    NodeView,
> {
    match parent_of(child) {
        Some(p) => if nodes.contains_key(p) {
            nodes.insert(p, NodeView { children: nodes[p].children.insert(child), ..nodes[p] })
        } else {
            nodes
        },
        None => nodes,
    }
}

/// The folders with `child` no longer noted below its parent.
pub open spec fn without_child(nodes: Map<Seq<char>, NodeView>, child: Seq<char>) -> Map<
    Seq<char>,
    NodeView,
> {
    match parent_of(child) {
        Some(p) => if nodes.contains_key(p) {
            nodes.insert(p, NodeView { children: nodes[p].children.remove(child), ..nodes[p] })
        } else {
            nodes
        },
        None => nodes,
    }
}

/// The folders with `path` watched: as they are where it is, else with a new
/// empty folder.
pub open spec fn with_folder(nodes: Map<Seq<char>, NodeView>, path: Seq<char>) -> Map<
    Seq<char>,
    NodeView,
> {
    if nodes.contains_key(path) {
        nodes
    } else {
        nodes.insert(path, empty_node(path))
    }
}

/// The folders after the folder `from` became `to`: what was watched at
/// `from` is watched at `to`, unless `to` was watched already; where `from`
/// was not watched, `to` is watched as an empty folder.
pub open spec fn moved(nodes: Map<Seq<char>, NodeView>, from: Seq<char>, to: Seq<char>) -> Map<
    Seq<char>,
    NodeView,
> {
    if nodes.contains_key(from) {
        let rest = nodes.remove(from);
        if rest.contains_key(to) {
            rest
        } else {
            rest.insert(to, nodes[from])
        }
    } else {
        with_folder(nodes, to)
    }
}

/// What an event does to the tree, and the logical operations that it gives.
pub open spec fn applied(t: TreeView, ev: SyntheticView) -> (TreeView, Seq<LogicalView>) {
    match ev {
        SyntheticView::FileCreate(p) => match folder_for(t, p, false) {
            Some(f) => (
                TreeView { nodes: with_track(t.nodes, f, p, true), ..t },
                seq![LogicalView::Add { playlist_folder: f, track_path: p }],
            ),
            None => (t, Seq::empty()),
        },
        SyntheticView::FileRemove(p) => match folder_for(t, p, false) {
            Some(f) => (
                TreeView { nodes: without_track(t.nodes, f, p), ..t },
                seq![LogicalView::Remove { playlist_folder: f, track_path: p }],
            ),
            None => (t, Seq::empty()),
        },
        SyntheticView::FileRename { from, to } => {
            let (t1, ops1) = match folder_for(t, from, false) {
                Some(f) => (
                    TreeView { nodes: without_track(t.nodes, f, from), ..t },
                    seq![LogicalView::Remove { playlist_folder: f, track_path: from }],
                ),
                None => (t, Seq::empty()),
            };
            match folder_for(t1, to, false) {
                Some(f) => (
                    TreeView { nodes: with_track(t1.nodes, f, to, false), ..t1 },
                    ops1.push(LogicalView::Add { playlist_folder: f, track_path: to }),
                ),
                None => (t1, ops1),
            }
        },
        SyntheticView::FolderRename { from, to } => (
            TreeView { nodes: with_child(moved(t.nodes, from, to), to), ..t },
            seq![LogicalView::PlaylistRename { from_folder: from, to_folder: to }],
        ),
        SyntheticView::FolderCreate(p) => (
            TreeView { nodes: with_child(with_folder(t.nodes, p), p), ..t },
            seq![LogicalView::Create { playlist_folder: p }],
        ),
        SyntheticView::FolderRemove(p) => (
            TreeView { nodes: without_child(t.nodes.remove(p), p), ..t },
            seq![LogicalView::Delete { playlist_folder: p }],
        ),
    }
}

impl InMemoryTree {
    /// The tree without folders.
    pub fn empty(root: &str, whitelist: Option<&str>) -> (t: InMemoryTree)
        ensures
            t@.root == root@,
            t@.nodes == Map::<Seq<char>, NodeView>::empty(),
            t@.whitelist == match whitelist {
                Some(w) => Some(patterns_of(w@)),
                None => None,
            },
    {
        let wl = match whitelist {
            Some(w) => Some(parse_whitelist(w)),
            None => None,
        };
        let t = InMemoryTree { root: String::from_str(root), nodes: Table::new(), whitelist: wl };
        assert(t@.nodes =~= Map::<Seq<char>, NodeView>::empty());
        t
    }

    /// Whether the whitelist lets the folder at `path` in.
    pub fn allows(&self, path: &str) -> (r: bool)
        ensures
            r == allowed_by(self@.whitelist, path@),
    {
        folder_allowed(&self.whitelist, path)
    }

    /// Whether the folder at `path` is watched.
    pub fn contains_node(&self, path: &str) -> (r: bool)
        ensures
            r == self@.nodes.contains_key(path@),
    {
        proof {
            reveal_strlit("");
            assert(""@ =~= Seq::<char>::empty());
        }
        self.nodes.get(path, "").is_some()
    }

    /// The watched folder at `path`.
    pub fn node(&self, path: &str) -> (r: Option<&FolderNode>)
        ensures
            match r {
                Some(n) => self@.nodes.contains_key(path@) && self@.nodes[path@] == n@,
                None => !self@.nodes.contains_key(path@),
            },
    {
        proof {
            reveal_strlit("");
            assert(""@ =~= Seq::<char>::empty());
        }
        self.nodes.get(path, "")
    }

    /// The paths of the watched folders, each once.
    pub fn folders(&self) -> (r: Vec<String>)
        ensures
            texts(r@).no_duplicates(),
            forall|p: Seq<char>| texts(r@).contains(p) <==> self@.nodes.contains_key(p),
    {
        let keys = self.nodes.keys();
        let ghost kv = crate::table::key_views(keys@);
        let mut r: Vec<String> = Vec::new();
        let mut i: usize = 0;
        while i < keys.len()
            invariant
                i <= keys.len(),
                kv == crate::table::key_views(keys@),
                kv.no_duplicates(),
                texts(r@).no_duplicates(),
                forall|s: Seq<char>|
                    texts(r@).contains(s) <==> exists|j: int|
                        0 <= j < i && #[trigger] kv[j] == (s, Seq::<char>::empty()),
            decreases keys.len() - i,
        {
            let ghost before = texts(r@);
            if keys[i].b.as_str().unicode_len() == 0 {
                assert(keys@[i as int].b@ =~= Seq::<char>::empty());
                r.push(keys[i].a.clone());
                proof {
                    let after = texts(r@);
                    assert(after =~= before.push(keys@[i as int].a@));
                    let name = keys@[i as int].a@;
                    assert(kv[i as int] == (name, Seq::<char>::empty()));
                    if before.contains(name) {
                        let j = choose|j: int|
                            0 <= j < i && #[trigger] kv[j] == (name, Seq::<char>::empty());
                        assert(kv[j] == kv[i as int]);
                    }
                    assert forall|s: Seq<char>| after.contains(s) <==> exists|j: int|
                        0 <= j < i + 1 && #[trigger] kv[j] == (s, Seq::<char>::empty()) by {
                        if before.contains(s) {
                            let q = choose|q: int| 0 <= q < before.len() && before[q] == s;
                            assert(after[q] == s);
                        }
                        if s == name {
                            assert(after[after.len() - 1] == s);
                        }
                        if after.contains(s) {
                            let q = choose|q: int| 0 <= q < after.len() && after[q] == s;
                            if q < before.len() {
                                assert(before[q] == s);
                            }
                        }
                    }
                }
            } else {
                proof {
                    assert forall|s: Seq<char>| before.contains(s) <==> exists|j: int|
                        0 <= j < i + 1 && #[trigger] kv[j] == (s, Seq::<char>::empty()) by {
                        assert(kv[i as int].1.len() > 0);
                    }
                }
            }
            i += 1;
        }
        proof {
            assert forall|s: Seq<char>| texts(r@).contains(s) <==> self@.nodes.contains_key(
                s,
            ) by {
                let k = (s, Seq::<char>::empty());
                if kv.contains(k) {
                    let j = choose|j: int| 0 <= j < kv.len() && kv[j] == k;
                    assert(kv[j] == k);
                }
                if exists|j: int| 0 <= j < keys.len() && #[trigger] kv[j] == k {
                    let j = choose|j: int| 0 <= j < keys.len() && #[trigger] kv[j] == k;
                    assert(kv.contains(k));
                }
            }
        }
        r
    }

    fn set_node(&mut self, path: &str, node: FolderNode)
        ensures
            final(self)@ == (TreeView { nodes: old(self)@.nodes.insert(path@, node@), ..old(self)@ }),
    {
        let ghost nv = node@;
        self.nodes.put(String::from_str(path), String::new(), node);
        assert(self@.nodes =~= old(self)@.nodes.insert(path@, nv));
    }

    fn take_node(&mut self, path: &str) -> (r: Option<FolderNode>)
        ensures
            final(self)@ == (TreeView { nodes: old(self)@.nodes.remove(path@), ..old(self)@ }),
            match r {
                Some(n) => old(self)@.nodes.contains_key(path@) && old(self)@.nodes[path@] == n@,
                None => !old(self)@.nodes.contains_key(path@),
            },
    {
        proof {
            reveal_strlit("");
            assert(""@ =~= Seq::<char>::empty());
        }
        let r = self.nodes.take(path, "");
        assert(self@.nodes =~= old(self)@.nodes.remove(path@));
        r
    }

    fn add_track(&mut self, folder: &str, track: &str, create: bool)
        ensures
            final(self)@ == (TreeView {
                nodes: with_track(old(self)@.nodes, folder@, track@, create),
                ..old(self)@
            }),
    {
        match self.take_node(folder) {
            Some(node) => {
                let mut node = node;
                node.tracks.insert(track);
                self.set_node(folder, node);
                assert(self@.nodes =~= with_track(old(self)@.nodes, folder@, track@, create));
            },
            None => {
                if create {
                    let mut node = FolderNode::new(String::from_str(folder));
                    node.tracks.insert(track);
                    assert(node@.tracks =~= set![track@]);
                    self.set_node(folder, node);
                }
                assert(self@.nodes =~= with_track(old(self)@.nodes, folder@, track@, create));
            },
        }
    }

    fn remove_track(&mut self, folder: &str, track: &str)
        ensures
            final(self)@ == (TreeView {
                nodes: without_track(old(self)@.nodes, folder@, track@),
                ..old(self)@
            }),
    {
        match self.take_node(folder) {
            Some(node) => {
                let mut node = node;
                node.tracks.remove(track);
                self.set_node(folder, node);
            },
            None => {},
        }
        assert(self@.nodes =~= without_track(old(self)@.nodes, folder@, track@));
    }

    fn note_child(&mut self, child: &str, present: bool)
        ensures
            final(self)@ == (TreeView {
                nodes: if present {
                    with_child(old(self)@.nodes, child@)
                } else {
                    without_child(old(self)@.nodes, child@)
                },
                ..old(self)@
            }),
    {
        match parent(&chars_of(child)) {
            Some(p) => {
                let p = string_of(&p);
                match self.take_node(p.as_str()) {
                    Some(node) => {
                        let mut node = node;
                        if present {
                            node.children.insert(child);
                        } else {
                            node.children.remove(child);
                        }
                        self.set_node(p.as_str(), node);
                    },
                    None => {},
                }
            },
            None => {},
        }
        assert(self@.nodes =~= if present {
            with_child(old(self)@.nodes, child@)
        } else {
            without_child(old(self)@.nodes, child@)
        });
    }

    fn watch(&mut self, path: &str)
        ensures
            final(self)@ == (TreeView { nodes: with_folder(old(self)@.nodes, path@), ..old(self)@ }),
    {
        if !self.contains_node(path) {
            self.set_node(path, FolderNode::new(String::from_str(path)));
        }
    }

    fn nearest(&self, p: Vec<char>) -> (r: Option<String>)
        ensures
            crate::models::opt_text(r) == nearest_folder(self@, p@),
        decreases p@.len(),
    {
        let root = chars_of(self.root.as_str());
        if !path_is_under(&p, &root) {
            return None;
        }
        let s = string_of(&p);
        if self.contains_node(s.as_str()) || folder_allowed(&self.whitelist, s.as_str()) {
            return Some(s);
        }
        if same_text(&p, &root) {
            return None;
        }
        match parent(&p) {
            Some(q) => {
                proof {
                    lemma_parent_shorter(p@);
                }
                self.nearest(q)
            },
            None => None,
        }
    }

    /// The playlist folder that a path belongs to; `is_dir` says whether the
    /// path is a directory.
    pub fn folder_for_path(&self, path: &str, is_dir: bool) -> (r: Option<String>)
        ensures
            crate::models::opt_text(r) == folder_for(self@, path@, is_dir),
    {
        let p = chars_of(path);
        if is_dir {
            self.nearest(p)
        } else {
            match parent(&p) {
                Some(q) => self.nearest(q),
                None => None,
            }
        }
    }

    /// Takes an event into the tree and gives the logical operations that it
    /// means.
    pub fn apply_synthetic_event(&mut self, op: SyntheticEvent) -> (out: Vec<LogicalOp>)
        ensures
            (final(self)@, logical_views(out@)) == applied(old(self)@, op@),
    {
        let mut out: Vec<LogicalOp> = Vec::new();
        assert(logical_views(out@) =~= Seq::<LogicalView>::empty());
        match op {
            SyntheticEvent::FileCreate(p) => {
                if let Some(folder) = self.folder_for_path(p.as_str(), false) {
                    self.add_track(folder.as_str(), p.as_str(), true);
                    out.push(LogicalOp::Add { playlist_folder: folder, track_path: p });
                    assert(logical_views(out@) =~= seq![
                        LogicalView::Add { playlist_folder: folder@, track_path: p@ },
                    ]);
                }
            },
            SyntheticEvent::FileRemove(p) => {
                if let Some(folder) = self.folder_for_path(p.as_str(), false) {
                    self.remove_track(folder.as_str(), p.as_str());
                    out.push(LogicalOp::Remove { playlist_folder: folder, track_path: p });
                    assert(logical_views(out@) =~= seq![
                        LogicalView::Remove { playlist_folder: folder@, track_path: p@ },
                    ]);
                }
            },
            SyntheticEvent::FileRename { from, to } => {
                if let Some(folder) = self.folder_for_path(from.as_str(), false) {
                    self.remove_track(folder.as_str(), from.as_str());
                    out.push(LogicalOp::Remove { playlist_folder: folder, track_path: from });
                    assert(logical_views(out@) =~= seq![
                        LogicalView::Remove { playlist_folder: folder@, track_path: from@ },
                    ]);
                }
                let ghost ops1 = logical_views(out@);
                if let Some(folder) = self.folder_for_path(to.as_str(), false) {
                    self.add_track(folder.as_str(), to.as_str(), false);
                    out.push(LogicalOp::Add { playlist_folder: folder, track_path: to });
                    assert(logical_views(out@) =~= ops1.push(
                        LogicalView::Add { playlist_folder: folder@, track_path: to@ },
                    ));
                }
            },
            SyntheticEvent::FolderRename { from, to } => {
                match self.take_node(from.as_str()) {
                    Some(node) => {
                        if !self.contains_node(to.as_str()) {
                            self.set_node(to.as_str(), node);
                        }
                    },
                    None => {
                        self.watch(to.as_str());
                    },
                }
                assert(self@.nodes =~= moved(old(self)@.nodes, from@, to@));
                self.note_child(to.as_str(), true);
                out.push(LogicalOp::PlaylistRename { from_folder: from, to_folder: to });
                assert(logical_views(out@) =~= seq![
                    LogicalView::PlaylistRename { from_folder: from@, to_folder: to@ },
                ]);
            },
            SyntheticEvent::FolderCreate(p) => {
                self.watch(p.as_str());
                self.note_child(p.as_str(), true);
                out.push(LogicalOp::Create { playlist_folder: p });
                assert(logical_views(out@) =~= seq![LogicalView::Create { playlist_folder: p@ }]);
            },
            SyntheticEvent::FolderRemove(p) => {
                let _ = self.take_node(p.as_str());
                self.note_child(p.as_str(), false);
                out.push(LogicalOp::Delete { playlist_folder: p });
                assert(logical_views(out@) =~= seq![LogicalView::Delete { playlist_folder: p@ }]);
            },
        }
        out
    }
}


/// One entry of a scan of the file system.
#[derive(Debug, Clone, PartialEq, Eq)]
pub struct ScanEntry {
    pub path: String,
    pub is_dir: bool,
    pub is_file: bool,
}

/// An entry of a scan as contracts see it.
pub struct ScanView {
    pub path: Seq<char>,
    pub is_dir: bool,
    pub is_file: bool,
}

impl View for ScanEntry {
    type V = ScanView;

    open spec fn view(&self) -> ScanView {
        ScanView { path: self.path@, is_dir: self.is_dir, is_file: self.is_file }
    }
}

/// Entries of a scan as contracts see them.
pub open spec fn scan_views(v: Seq<ScanEntry>) -> Seq<ScanView> {
    v.map_values(|e: ScanEntry| e@)
}

/// File extensions as contracts see them.
pub open spec fn extensions_view(exts: Option<&Vec<String>>) -> Option<Seq<Seq<char>>> {
    match exts {
        Some(v) => Some(texts(v@)),
        None => None,
    }
}

/// The folders after one entry of a scan was taken in. A temporary path is
/// passed over. A directory that the whitelist lets in is watched. A file
/// whose extension counts, or any file where no extensions are given, is a
/// track of the folder that holds it, if the whitelist lets that folder in.
pub open spec fn scanned(
    nodes: Map<Seq<char>, NodeView>,
    whitelist: Option<Seq<Seq<char>>>,
    exts: Option<Seq<Seq<char>>>,
    e: ScanView,
) -> Map<Seq<char>, NodeView> {
    if is_temp_path(e.path) {
        nodes
    } else if e.is_dir {
        if allowed_by(whitelist, e.path) {
            with_folder(nodes, e.path)
        } else {
            nodes
        }
    } else if e.is_file && (exts is None || matches_extensions(e.path, exts->0)) {
        match parent_of(e.path) {
            Some(p) => if allowed_by(whitelist, p) {
                with_track(nodes, p, e.path, true)
            } else {
                nodes
            },
            None => nodes,
        }
    } else {
        nodes
    }
}

/// The folders after the entries of a scan were taken in, in order.
pub open spec fn scanned_all(
    whitelist: Option<Seq<Seq<char>>>,
    exts: Option<Seq<Seq<char>>>,
    entries: Seq<ScanView>,
) -> Map<Seq<char>, NodeView>
    decreases entries.len(),
{
    if entries.len() == 0 {
        Map::empty()
    } else {
        scanned(scanned_all(whitelist, exts, entries.drop_last()), whitelist, exts, entries.last())
    }
}

/// The folders with each watched directory of the scan noted below its
/// parent.
pub open spec fn linked(nodes: Map<Seq<char>, NodeView>, entries: Seq<ScanView>) -> Map<
    Seq<char>,
    NodeView,
>
    decreases entries.len(),
{
    if entries.len() == 0 {
        nodes
    } else {
        let rest = linked(nodes, entries.drop_last());
        let e = entries.last();
        if e.is_dir && rest.contains_key(e.path) {
            with_child(rest, e.path)
        } else {
            rest
        }
    }
}

/// The tree that a scan gives.
pub open spec fn built(
    root: Seq<char>,
    whitelist: Option<Seq<Seq<char>>>,
    exts: Option<Seq<Seq<char>>>,
    entries: Seq<ScanView>,
) -> TreeView {
    TreeView { root, nodes: linked(scanned_all(whitelist, exts, entries), entries), whitelist }
}

impl InMemoryTree {
    fn scan_one(&mut self, exts: Option<&Vec<String>>, e: &ScanEntry)
        ensures
            final(self)@ == (TreeView {
                nodes: scanned(
                    old(self)@.nodes,
                    old(self)@.whitelist,
                    extensions_view(exts),
                    e@,
                ),
                ..old(self)@
            }),
    {
        if is_smb_temp_path(e.path.as_str()) {
            return ;
        }
        if e.is_dir {
            if folder_allowed(&self.whitelist, e.path.as_str()) {
                self.watch(e.path.as_str());
            }
        } else if e.is_file {
            let counts = match exts {
                Some(v) => path_matches_extensions(e.path.as_str(), v),
                None => true,
            };
            if counts {
                match parent(&chars_of(e.path.as_str())) {
                    Some(p) => {
                        let p = string_of(&p);
                        if folder_allowed(&self.whitelist, p.as_str()) {
                            self.add_track(p.as_str(), e.path.as_str(), true);
                        }
                    },
                    None => {},
                }
            }
        }
    }

    /// Builds the tree from a scan of the file system below `root`. The
    /// whitelist is a list of patterns separated by `:`; `None` lets every
    /// folder in. Where `file_extensions` is `None`, every file is a track.
    pub fn build(
        root: &str,
        whitelist: Option<&str>,
        file_extensions: Option<&Vec<String>>,
        entries: &Vec<ScanEntry>,
    ) -> (t: InMemoryTree)
        ensures
            t@ == built(
                root@,
                match whitelist {
                    Some(w) => Some(patterns_of(w@)),
                    None => None,
                },
                extensions_view(file_extensions),
                scan_views(entries@),
            ),
    {
        let mut t = InMemoryTree::empty(root, whitelist);
        let ghost wl = t@.whitelist;
        let ghost exts = extensions_view(file_extensions);
        let ghost es = scan_views(entries@);
        let mut i: usize = 0;
        assert(es.take(0) =~= Seq::<ScanView>::empty());
        while i < entries.len()
            invariant
                i <= entries.len(),
                es == scan_views(entries@),
                exts == extensions_view(file_extensions),
                t@.root == root@,
                t@.whitelist == wl,
                t@.nodes == scanned_all(wl, exts, es.take(i as int)),
            decreases entries.len() - i,
        {
            proof {
                assert(es.take(i + 1).drop_last() =~= es.take(i as int));
                assert(es.take(i + 1).last() == entries@[i as int]@);
            }
            t.scan_one(file_extensions, &entries[i]);
            i += 1;
        }
        assert(es.take(entries.len() as int) =~= es);
        let ghost base = t@.nodes;
        let mut j: usize = 0;
        while j < entries.len()
            invariant
                j <= entries.len(),
                es == scan_views(entries@),
                t@.root == root@,
                t@.whitelist == wl,
                t@.nodes == linked(base, es.take(j as int)),
            decreases entries.len() - j,
        {
            proof {
                assert(es.take(j + 1).drop_last() =~= es.take(j as int));
                assert(es.take(j + 1).last() == entries@[j as int]@);
            }
            let e = &entries[j];
            if e.is_dir && t.contains_node(e.path.as_str()) {
                t.note_child(e.path.as_str(), true);
            }
            j += 1;
        }
        assert(es.take(entries.len() as int) =~= es);
        t
    }
}


proof fn lemma_links_keep_folders(nodes: Map<Seq<char>, NodeView>, entries: Seq<ScanView>)
    ensures
        linked(nodes, entries).dom() == nodes.dom(),
    decreases entries.len(),
{
    if entries.len() > 0 {
        lemma_links_keep_folders(nodes, entries.drop_last());
        let rest = linked(nodes, entries.drop_last());
        assert(linked(nodes, entries).dom() =~= rest.dom());
    }
}

/// A whitelist that lets no folder in gives a tree without folders.
pub proof fn lemma_closed_whitelist_empty_tree(
    root: Seq<char>,
    whitelist: Option<Seq<Seq<char>>>,
    exts: Option<Seq<Seq<char>>>,
    entries: Seq<ScanView>,
)
    requires
        forall|p: Seq<char>| !allowed_by(whitelist, p),
    ensures
        built(root, whitelist, exts, entries).nodes == Map::<Seq<char>, NodeView>::empty(),
{
    lemma_scan_closed(whitelist, exts, entries);
    lemma_links_keep_folders(scanned_all(whitelist, exts, entries), entries);
    assert(built(root, whitelist, exts, entries).nodes =~= Map::<Seq<char>, NodeView>::empty());
}

proof fn lemma_scan_closed(
    whitelist: Option<Seq<Seq<char>>>,
    exts: Option<Seq<Seq<char>>>,
    entries: Seq<ScanView>,
)
    requires
        forall|p: Seq<char>| !allowed_by(whitelist, p),
    ensures
        scanned_all(whitelist, exts, entries) == Map::<Seq<char>, NodeView>::empty(),
    decreases entries.len(),
{
    if entries.len() > 0 {
        lemma_scan_closed(whitelist, exts, entries.drop_last());
    }
}

/// Without watched folders and with a whitelist that lets no folder in, an
/// event on a file changes nothing and gives no logical operation.
pub proof fn lemma_closed_whitelist_no_ops(t: TreeView, path: Seq<char>)
    requires
        forall|p: Seq<char>| !allowed_by(t.whitelist, p),
        t.nodes == Map::<Seq<char>, NodeView>::empty(),
    ensures
        applied(t, SyntheticView::FileCreate(path)) == (t, Seq::<LogicalView>::empty()),
        applied(t, SyntheticView::FileRemove(path)) == (t, Seq::<LogicalView>::empty()),
{
    match parent_of(path) {
        Some(q) => {
            lemma_nothing_near(t, q);
        },
        None => {},
    }
}

proof fn lemma_nothing_near(t: TreeView, p: Seq<char>)
    requires
        forall|q: Seq<char>| !allowed_by(t.whitelist, q),
        t.nodes == Map::<Seq<char>, NodeView>::empty(),
    ensures
        nearest_folder(t, p) is None,
    decreases p.len(),
{
    if is_under(p, t.root) && p != t.root {
        match parent_of(p) {
            Some(q) => {
                lemma_parent_shorter(p);
                lemma_nothing_near(t, q);
            },
            None => {},
        }
    }
}

} // verus!
