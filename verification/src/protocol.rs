//! The requests that the engine hands to its caller and the answers that it
//! takes back.
//!
//! The engine never reads a file, calls a provider, touches the store or
//! sleeps. It says what is to be done next as a `Request`; the caller does it
//! and reports the outcome as a `Response`.
use crate::api::ErrorKind;
use crate::models::{opt_text, texts};
use vstd::prelude::*;

verus! {

/// What the caller is asked to do next.
#[derive(Debug, Clone, PartialEq, Eq)]
pub enum Request {
    /// Take the lease on a playlist. Answer: `Flag`, whether it was taken.
    AcquireLease { playlist: String, worker: String, ttl_secs: i64 },
    /// Give the lease back if this worker holds it. Answer: `Done`.
    ReleaseLease { playlist: String, worker: String },
    /// Look up the remote id of a playlist. Answer: `Text`.
    GetRemoteId { provider: String, playlist: String },
    /// Record the remote id of a playlist. Answer: `Done`.
    UpsertMap { provider: String, playlist: String, remote_id: String },
    /// Forget the remote id of a playlist. Answer: `Done`.
    DeleteMap { provider: String, playlist: String },
    /// Move the remote id of a playlist to another key. Answer: `Done`.
    MigrateMap { provider: String, from: String, to: String },
    /// Mark events as synced. Answer: `Done`.
    MarkSynced { ids: Vec<i64> },
    /// Read the local playlist file of a playlist. Answer: `Texts`, the paths
    /// of the tracks that it lists and that exist; `Missing` where there is no
    /// such file.
    ReadLocalPlaylist { playlist: String },
    /// Look up a track in the cache. Answer: `Cached`.
    CacheLookup { provider: String, local_path: String },
    /// Record what is known of a track in the cache. Answer: `Done`.
    CacheStore { provider: String, local_path: String, isrc: Option<String>, uri: Option<String> },
    /// Read the ISRC from the tags of a file. Answer: `Text`.
    ExtractIsrc { local_path: String },
    /// Ask the provider for the track with an ISRC. Answer: `Text`.
    SearchByIsrc { code: String },
    /// Ask the provider for a track by title and artist. Answer: `Text`.
    Search { title: String, artist: String },
    /// Ask the provider for the ISRC of a track. Answer: `Text`.
    LookupIsrc { track: String },
    /// Make sure that a playlist of this name exists, with an empty
    /// description. Answer: `Text`, its remote id.
    EnsurePlaylist { name: String },
    /// Ask the provider whether a remote id still stands. Answer: `Flag`.
    CheckValid { remote_id: String },
    /// Rename a remote playlist. Answer: `Done`.
    Rename { remote_id: String, name: String },
    /// Delete a remote playlist. Answer: `Done`.
    DeletePlaylist { remote_id: String },
    /// List the tracks of a remote playlist. Answer: `Texts`.
    ListTracks { remote_id: String },
    /// Add one batch of tracks. Answer: `Done`.
    AddTracks { remote_id: String, uris: Vec<String> },
    /// Remove one batch of tracks. Answer: `Done`.
    RemoveTracks { remote_id: String, uris: Vec<String> },
    /// Wait. Answer: `Done`.
    Sleep { secs: u64 },
    /// Nothing more: the pass is over. `synced` says whether the events of the
    /// batch were marked as synced.
    Finished { synced: bool },
}

/// The outcome of a request.
#[derive(Debug, Clone, PartialEq, Eq)]
pub enum Response {
    /// It was done.
    Done,
    Flag(bool),
    Text(Option<String>),
    Texts(Vec<String>),
    /// The cache's row for a track: `found` says whether there is one.
    Cached { found: bool, isrc: Option<String>, uri: Option<String> },
    /// What was asked for is not there.
    Missing,
    Failed(ErrorKind),
}

/// A request as contracts see it.
pub enum RequestView {
    AcquireLease { playlist: Seq<char>, worker: Seq<char>, ttl_secs: i64 },
    ReleaseLease { playlist: Seq<char>, worker: Seq<char> },
    GetRemoteId { provider: Seq<char>, playlist: Seq<char> },
    UpsertMap { provider: Seq<char>, playlist: Seq<char>, remote_id: Seq<char> },
    DeleteMap { provider: Seq<char>, playlist: Seq<char> },
    MigrateMap { provider: Seq<char>, from: Seq<char>, to: Seq<char> },
    MarkSynced { ids: Seq<i64> },
    ReadLocalPlaylist { playlist: Seq<char> },
    CacheLookup { provider: Seq<char>, local_path: Seq<char> },
    CacheStore {
        provider: Seq<char>,
        local_path: Seq<char>,
        isrc: Option<Seq<char>>,
        uri: Option<Seq<char>>,
    },
    ExtractIsrc { local_path: Seq<char> },
    SearchByIsrc { code: Seq<char> },
    Search { title: Seq<char>, artist: Seq<char> },
    LookupIsrc { track: Seq<char> },
    EnsurePlaylist { name: Seq<char> },
    CheckValid { remote_id: Seq<char> },
    Rename { remote_id: Seq<char>, name: Seq<char> },
    DeletePlaylist { remote_id: Seq<char> },
    ListTracks { remote_id: Seq<char> },
    AddTracks { remote_id: Seq<char>, uris: Seq<Seq<char>> },
    RemoveTracks { remote_id: Seq<char>, uris: Seq<Seq<char>> },
    Sleep { secs: u64 },
    Finished { synced: bool },
}

/// A response as contracts see it.
pub enum ResponseView {
    Done,
    Flag(bool),
    Text(Option<Seq<char>>),
    Texts(Seq<Seq<char>>),
    Cached { found: bool, isrc: Option<Seq<char>>, uri: Option<Seq<char>> },
    Missing,
    Failed(ErrorKind),
}

impl View for Request {
    type V = RequestView;

    open spec fn view(&self) -> RequestView {
        match self {
            Request::AcquireLease { playlist, worker, ttl_secs } => RequestView::AcquireLease {
                playlist: playlist@,
                worker: worker@,
                ttl_secs: *ttl_secs,
            },
            Request::ReleaseLease { playlist, worker } => RequestView::ReleaseLease {
                playlist: playlist@,
                worker: worker@,
            },
            Request::GetRemoteId { provider, playlist } => RequestView::GetRemoteId {
                provider: provider@,
                playlist: playlist@,
            },
            Request::UpsertMap { provider, playlist, remote_id } => RequestView::UpsertMap {
                provider: provider@,
                playlist: playlist@,
                remote_id: remote_id@,
            },
            Request::DeleteMap { provider, playlist } => RequestView::DeleteMap {
                provider: provider@,
                playlist: playlist@,
            },
            Request::MigrateMap { provider, from, to } => RequestView::MigrateMap {
                provider: provider@,
                from: from@,
                to: to@,
            },
            Request::MarkSynced { ids } => RequestView::MarkSynced { ids: ids@ },
            Request::ReadLocalPlaylist { playlist } => RequestView::ReadLocalPlaylist {
                playlist: playlist@,
            },
            Request::CacheLookup { provider, local_path } => RequestView::CacheLookup {
                provider: provider@,
                local_path: local_path@,
            },
            Request::CacheStore { provider, local_path, isrc, uri } => RequestView::CacheStore {
                provider: provider@,
                local_path: local_path@,
                isrc: opt_text(*isrc),
                uri: opt_text(*uri),
            },
            Request::ExtractIsrc { local_path } => RequestView::ExtractIsrc {
                local_path: local_path@,
            },
            Request::SearchByIsrc { code } => RequestView::SearchByIsrc { code: code@ },
            Request::Search { title, artist } => RequestView::Search {
                title: title@,
                artist: artist@,
            },
            Request::LookupIsrc { track } => RequestView::LookupIsrc { track: track@ },
            Request::EnsurePlaylist { name } => RequestView::EnsurePlaylist { name: name@ },
            Request::CheckValid { remote_id } => RequestView::CheckValid { remote_id: remote_id@ },
            Request::Rename { remote_id, name } => RequestView::Rename {
                remote_id: remote_id@,
                name: name@,
            },
            Request::DeletePlaylist { remote_id } => RequestView::DeletePlaylist {
                remote_id: remote_id@,
            },
            Request::ListTracks { remote_id } => RequestView::ListTracks { remote_id: remote_id@ },
            Request::AddTracks { remote_id, uris } => RequestView::AddTracks {
                remote_id: remote_id@,
                uris: texts(uris@),
            },
            Request::RemoveTracks { remote_id, uris } => RequestView::RemoveTracks {
                remote_id: remote_id@,
                uris: texts(uris@),
            },
            Request::Sleep { secs } => RequestView::Sleep { secs: *secs },
            Request::Finished { synced } => RequestView::Finished { synced: *synced },
        }
    }
}

impl View for Response {
    type V = ResponseView;

    open spec fn view(&self) -> ResponseView {
        match self {
            Response::Done => ResponseView::Done,
            Response::Flag(b) => ResponseView::Flag(*b),
            Response::Text(t) => ResponseView::Text(opt_text(*t)),
            Response::Texts(v) => ResponseView::Texts(texts(v@)),
            Response::Cached { found, isrc, uri } => ResponseView::Cached {
                found: *found,
                isrc: opt_text(*isrc),
                uri: opt_text(*uri),
            },
            Response::Missing => ResponseView::Missing,
            Response::Failed(e) => ResponseView::Failed(*e),
        }
    }
}

} // verus!
