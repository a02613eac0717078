//! What the engine asks of a streaming provider.
use crate::text::{
    chars_of, contains, contains_text, find_from, first_match_from, has_prefix, is_digit,
    lemma_first_match, parse_decimal, parsed_decimal, slice_of, split_first, split_once,
    starts_with, trim, trimmed,
};
use crate::models::{opt_text, texts};
use crate::protocol::{Request, RequestView, Response, ResponseView};
use vstd::prelude::*;

pub mod mock;
pub mod pkce;
pub mod spotify;
pub mod tidal;
pub mod uris;
pub mod urls;

verus! {

/// The ways in which a request to a provider, to the store or to the file
/// system can fail.
#[derive(Debug, Clone, Copy, PartialEq, Eq, Structural)]
pub enum ErrorKind {
    NotAuthenticated,
    /// The provider asks for a pause, of `retry_after` seconds if it says so.
    RateLimited { retry_after: Option<u64> },
    /// The playlist is no longer there.
    PlaylistMissing,
    TransientNetwork,
    PermanentNetwork,
    Unauthorized,
    MalformedResponse,
    StoreFailure,
    FilesystemFailure,
}

/// The operations that the engine needs from a provider. Nothing is promised
/// of what an implementation returns.
pub trait Provider {
    /// Makes sure that a playlist of this name exists and gives its remote id.
    fn ensure_playlist(&self, name: &str, description: &str) -> Result<String, ErrorKind>;

    fn rename_playlist(&self, playlist_id: &str, new_name: &str) -> Result<(), ErrorKind>;

    /// Adds tracks, given by their URIs; the caller has cut them into batches.
    fn add_tracks(&self, playlist_id: &str, uris: &Vec<String>) -> Result<(), ErrorKind>;

    fn remove_tracks(&self, playlist_id: &str, uris: &Vec<String>) -> Result<(), ErrorKind>;

    fn delete_playlist(&self, playlist_id: &str) -> Result<(), ErrorKind>;

    /// The URIs of the tracks on a remote playlist, each once, in a stable
    /// order.
    fn list_playlist_tracks(&self, playlist_id: &str) -> Result<Vec<String>, ErrorKind>;

    /// Searches a track by title and artist.
    fn search_track_uri(&self, title: &str, artist: &str) -> Result<Option<String>, ErrorKind>;

    /// Searches a track by its ISRC. A provider that cannot finds none.
    fn search_track_uri_by_isrc(&self, isrc: &str) -> (r: Result<Option<String>, ErrorKind>)
        default_ensures
            r == Ok::<Option<String>, ErrorKind>(None),
    {
        Ok(None)
    }

    /// The ISRC of a track given by its URI. A provider that cannot finds none.
    fn lookup_track_isrc(&self, uri: &str) -> (r: Result<Option<String>, ErrorKind>)
        default_ensures
            r == Ok::<Option<String>, ErrorKind>(None),
    {
        Ok(None)
    }

    /// Whether the remote id still stands for a playlist that can be reached.
    /// A provider that cannot tell says yes.
    fn playlist_is_valid(&self, playlist_id: &str) -> (r: Result<bool, ErrorKind>)
        default_ensures
            r == Ok::<bool, ErrorKind>(true),
    {
        Ok(true)
    }

    /// The provider's name.
    fn name(&self) -> &str;

    /// Whether the provider has what it needs to be called.
    fn is_authenticated(&self) -> bool;

    /// Whether the provider can nest playlists in folders.
    fn supports_folder_nesting(&self) -> (r: bool)
        default_ensures
            r,
    {
        true
    }
}

/// The digits at the start of `s`.
pub open spec fn digit_prefix(s: Seq<char>) -> Seq<char>
    decreases s.len(),
{
    if s.len() > 0 && is_digit(s[0]) {
        seq![s[0]] + digit_prefix(s.drop_first())
    } else {
        Seq::empty()
    }
}

/// The part of `s` before the first `)`, or all of `s` if it holds none.
pub open spec fn before_paren(s: Seq<char>) -> Seq<char> {
    match first_match_from(s, seq![')'], 0) {
        Some(i) => s.take(i),
        None => s,
    }
}

/// The number of seconds that an error message gives after its first
/// `retry_after=`: either digits, or digits between `Some(` and `)`.
pub open spec fn retry_after_of(msg: Seq<char>) -> Option<u64> {
    match split_first(msg, "retry_after="@) {
        Some((_, rest)) => {
            let token = trimmed(rest);
            if has_prefix(token, "Some("@) {
                parsed_decimal(before_paren(token.skip("Some("@.len() as int)))
            } else {
                parsed_decimal(digit_prefix(token))
            }
        },
        None => None,
    }
}

/// The kind of error that a provider's message stands for: a rate limit where
/// it holds `rate_limited` or gives a number of seconds after `retry_after=`;
/// else a missing playlist where it holds both `404 Not Found` and
/// `Playlists with id`; else a passing fault of the network.
pub open spec fn error_of_message(msg: Seq<char>) -> ErrorKind {
    if contains_text(msg, "rate_limited"@) || retry_after_of(msg) is Some {
        ErrorKind::RateLimited { retry_after: retry_after_of(msg) }
    } else if contains_text(msg, "404 Not Found"@) && contains_text(msg, "Playlists with id"@) {
        ErrorKind::PlaylistMissing
    } else {
        ErrorKind::TransientNetwork
    }
}

fn take_digits(s: &Vec<char>) -> (r: Vec<char>)
    ensures
        r@ == digit_prefix(s@),
{
    let mut r: Vec<char> = Vec::new();
    let mut i: usize = 0;
    assert(s@.skip(0) =~= s@);
    assert(r@ + digit_prefix(s@.skip(0)) =~= digit_prefix(s@));
    while i < s.len() && crate::text::digit_char(s[i])
        invariant
            i <= s.len(),
            r@ + digit_prefix(s@.skip(i as int)) == digit_prefix(s@),
        decreases s.len() - i,
    {
        let ghost before = r@;
        r.push(s[i]);
        proof {
            let t = s@.skip(i as int);
            assert(t[0] == s@[i as int]);
            assert(t.drop_first() =~= s@.skip(i + 1));
            assert(r@ + digit_prefix(s@.skip(i + 1)) =~= before + digit_prefix(t));
        }
        i += 1;
    }
    proof {
        let t = s@.skip(i as int);
        if i < s.len() {
            assert(t[0] == s@[i as int]);
        }
        assert(digit_prefix(t) =~= Seq::<char>::empty());
        assert(r@ + Seq::<char>::empty() =~= r@);
    }
    r
}

/// Reads the number of seconds that an error message gives after
/// `retry_after=`.
pub fn parse_retry_after(msg: &str) -> (r: Option<u64>)
    ensures
        r == retry_after_of(msg@),
{
    let m = chars_of(msg);
    match split_once(&m, &chars_of("retry_after=")) {
        Some((_, rest)) => {
            let token = trim(&rest);
            let some = chars_of("Some(");
            if starts_with(&token, &some) {
                let inner = slice_of(&token, some.len(), token.len());
                let mut paren: Vec<char> = Vec::new();
                paren.push(')');
                assert(paren@ =~= seq![')']);
                let number = match find_from(&inner, &paren, 0) {
                    Some(i) => {
                        proof {
                            lemma_first_match(inner@, paren@, 0);
                        }
                        assert(i <= inner.len());
                        slice_of(&inner, 0, i)
                    },
                    None => inner,
                };
                parse_decimal(&number)
            } else {
                parse_decimal(&take_digits(&token))
            }
        },
        None => None,
    }
}

/// Tells the kind of error that a provider's message stands for.
pub fn classify_error_message(msg: &str) -> (r: ErrorKind)
    ensures
        r == error_of_message(msg@),
{
    let m = chars_of(msg);
    let retry_after = parse_retry_after(msg);
    if contains(&m, &chars_of("rate_limited")) || retry_after.is_some() {
        ErrorKind::RateLimited { retry_after }
    } else if contains(&m, &chars_of("404 Not Found")) && contains(
        &m,
        &chars_of("Playlists with id"),
    ) {
        ErrorKind::PlaylistMissing
    } else {
        ErrorKind::TransientNetwork
    }
}


/// Whether a request is for the provider.
pub open spec fn is_provider_request(req: RequestView) -> bool {
    match req {
        RequestView::EnsurePlaylist { .. } => true,
        RequestView::CheckValid { .. } => true,
        RequestView::Rename { .. } => true,
        RequestView::DeletePlaylist { .. } => true,
        RequestView::ListTracks { .. } => true,
        RequestView::AddTracks { .. } => true,
        RequestView::RemoveTracks { .. } => true,
        RequestView::SearchByIsrc { .. } => true,
        RequestView::Search { .. } => true,
        RequestView::LookupIsrc { .. } => true,
        _ => false,
    }
}

/// The answer for a call that gives nothing back.
pub fn answer_unit(r: Result<(), ErrorKind>) -> (a: Response)
    ensures
        a@ == match r {
            Ok(_) => ResponseView::Done,
            Err(e) => ResponseView::Failed(e),
        },
{
    match r {
        Ok(_) => Response::Done,
        Err(e) => Response::Failed(e),
    }
}

/// The answer for a call that gives a remote id.
pub fn answer_id(r: Result<String, ErrorKind>) -> (a: Response)
    ensures
        a@ == match r {
            Ok(id) => ResponseView::Text(Some(id@)),
            Err(e) => ResponseView::Failed(e),
        },
{
    match r {
        Ok(id) => Response::Text(Some(id)),
        Err(e) => Response::Failed(e),
    }
}

/// The answer for a call that may find a text.
pub fn answer_text(r: Result<Option<String>, ErrorKind>) -> (a: Response)
    ensures
        a@ == match r {
            Ok(t) => ResponseView::Text(opt_text(t)),
            Err(e) => ResponseView::Failed(e),
        },
{
    match r {
        Ok(t) => Response::Text(t),
        Err(e) => Response::Failed(e),
    }
}

/// The answer for a call that says yes or no.
pub fn answer_flag(r: Result<bool, ErrorKind>) -> (a: Response)
    ensures
        a@ == match r {
            Ok(b) => ResponseView::Flag(b),
            Err(e) => ResponseView::Failed(e),
        },
{
    match r {
        Ok(b) => Response::Flag(b),
        Err(e) => Response::Failed(e),
    }
}

/// The answer for a call that gives a list of texts.
pub fn answer_texts(r: Result<Vec<String>, ErrorKind>) -> (a: Response)
    ensures
        a@ == match r {
            Ok(v) => ResponseView::Texts(texts(v@)),
            Err(e) => ResponseView::Failed(e),
        },
{
    match r {
        Ok(v) => Response::Texts(v),
        Err(e) => Response::Failed(e),
    }
}

/// Hands a request to the provider and gives its answer; `None` for a request
/// that is not for the provider. What the answer holds is the provider's
/// matter; its kind follows from the request.
pub fn perform_provider_request<P: Provider>(provider: &P, req: &Request) -> (r: Option<Response>)
    ensures
        r is Some <==> is_provider_request(req@),
        match r {
            Some(a) => match req@ {
                RequestView::EnsurePlaylist { .. } => a@ is Failed || (a@ is Text && a@->Text_0 is Some),
                RequestView::CheckValid { .. } => a@ is Failed || a@ is Flag,
                RequestView::ListTracks { .. } => a@ is Failed || a@ is Texts,
                RequestView::SearchByIsrc { .. } => a@ is Failed || a@ is Text,
                RequestView::Search { .. } => a@ is Failed || a@ is Text,
                RequestView::LookupIsrc { .. } => a@ is Failed || a@ is Text,
                _ => a@ is Failed || a@ is Done,
            },
            None => true,
        },
{
    match req {
        Request::EnsurePlaylist { name } => Some(
            answer_id(provider.ensure_playlist(name.as_str(), "")),
        ),
        Request::CheckValid { remote_id } => Some(
            answer_flag(provider.playlist_is_valid(remote_id.as_str())),
        ),
        Request::Rename { remote_id, name } => Some(
            answer_unit(provider.rename_playlist(remote_id.as_str(), name.as_str())),
        ),
        Request::DeletePlaylist { remote_id } => Some(
            answer_unit(provider.delete_playlist(remote_id.as_str())),
        ),
        Request::ListTracks { remote_id } => Some(
            answer_texts(provider.list_playlist_tracks(remote_id.as_str())),
        ),
        Request::AddTracks { remote_id, uris } => Some(
            answer_unit(provider.add_tracks(remote_id.as_str(), uris)),
        ),
        Request::RemoveTracks { remote_id, uris } => Some(
            answer_unit(provider.remove_tracks(remote_id.as_str(), uris)),
        ),
        Request::SearchByIsrc { code } => Some(
            answer_text(provider.search_track_uri_by_isrc(code.as_str())),
        ),
        Request::Search { title, artist } => Some(
            answer_text(provider.search_track_uri(title.as_str(), artist.as_str())),
        ),
        Request::LookupIsrc { track } => Some(
            answer_text(provider.lookup_track_isrc(track.as_str())),
        ),
        _ => None,
    }
}

} // verus!
