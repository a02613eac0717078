//! A provider that answers without a network.
use super::{Provider, ErrorKind};
use crate::text::{chars_of, concat_text, string_of};
use vstd::prelude::*;

verus! {

/// A provider for trials and for runs without credentials: every call
/// succeeds, and ids and URIs are made from the arguments.
#[derive(Debug, Clone, Copy, PartialEq, Eq, Structural)]
pub struct MockProvider {}

impl MockProvider {
    /// The mock provider.
    pub fn new() -> (r: MockProvider) {
        MockProvider {  }
    }

    /// The mock provider holds no credentials.
    pub fn is_authenticated(&self) -> (r: bool)
        ensures
            !r,
    {
        false
    }

    /// Its name is `mock`.
    pub fn name(&self) -> (r: &str)
        ensures
            r@ == "mock"@,
    {
        "mock"
    }
}

/// The id that the mock provider gives the playlist called `name`.
pub open spec fn mock_playlist_id(name: Seq<char>) -> Seq<char> {
    "mock-playlist-"@ + name
}

/// The URI that the mock provider gives a track.
pub open spec fn mock_track_uri(title: Seq<char>, artist: Seq<char>) -> Seq<char> {
    "mock:track:"@ + title + ":"@ + artist
}

impl Provider for MockProvider {
    fn ensure_playlist(&self, name: &str, description: &str) -> (r: Result<String, ErrorKind>)
        ensures
            r is Ok,
            r->Ok_0@ == mock_playlist_id(name@),
    {
        Ok(string_of(&concat_text(&chars_of("mock-playlist-"), &chars_of(name))))
    }

    fn rename_playlist(&self, playlist_id: &str, new_name: &str) -> (r: Result<(), ErrorKind>)
        ensures
            r is Ok,
    {
        Ok(())
    }

    fn add_tracks(&self, playlist_id: &str, uris: &Vec<String>) -> (r: Result<(), ErrorKind>)
        ensures
            r is Ok,
    {
        Ok(())
    }

    fn remove_tracks(&self, playlist_id: &str, uris: &Vec<String>) -> (r: Result<
        (),
        ErrorKind,
    >)
        ensures
            r is Ok,
    {
        Ok(())
    }

    fn delete_playlist(&self, playlist_id: &str) -> (r: Result<(), ErrorKind>)
        ensures
            r is Ok,
    {
        Ok(())
    }

    fn list_playlist_tracks(&self, playlist_id: &str) -> (r: Result<Vec<String>, ErrorKind>)
        ensures
            r is Ok,
            r->Ok_0@.len() == 0,
    {
        Ok(Vec::new())
    }

    fn search_track_uri(&self, title: &str, artist: &str) -> (r: Result<
        Option<String>,
        ErrorKind,
    >)
        ensures
            r is Ok,
            r->Ok_0 is Some,
            r->Ok_0->Some_0@ == mock_track_uri(title@, artist@),
    {
        let a = concat_text(&chars_of("mock:track:"), &chars_of(title));
        let b = concat_text(&a, &chars_of(":"));
        let c = concat_text(&b, &chars_of(artist));
        Ok(Some(string_of(&c)))
    }

    fn name(&self) -> (r: &str)
        ensures
            r@ == "mock"@,
    {
        MockProvider::name(self)
    }

    fn is_authenticated(&self) -> (r: bool)
        ensures
            !r,
    {
        MockProvider::is_authenticated(self)
    }
}

} // verus!
