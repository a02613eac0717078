//! Finding the remote URI of a local track.
//!
//! A track is resolved in this order, and the first success counts: a path
//! that begins with `uri::` names its URI itself; the cache may hold the URI;
//! the provider may know the track by its ISRC, taken from the cache or from
//! the file's tags; the provider may find it by the artist and title that the
//! file's name gives. A URI found by a search is recorded in the cache.
use crate::models::opt_text;
use crate::paths::{file_name, file_name_of, stem, stem_of};
use crate::protocol::{Request, RequestView, Response, ResponseView};
use crate::text::{
    all_digits, chars_of, has_prefix, last_match, lemma_last_match, lowered, only_digits, rfind,
    slice_of, split_first, split_once, starts_with, string_of, to_ascii_lowercase, trim,
    trim_end, trimmed, trimmed_end,
};
use vstd::prelude::*;

verus! {

/// The URI that a path names itself: what follows `uri::` at its start.
pub open spec fn uri_override(path: Seq<char>) -> Option<Seq<char>> {
    if has_prefix(path, "uri::"@) {
        Some(path.skip("uri::"@.len() as int))
    } else {
        None
    }
}

/// A title without the white space around it and without a mark of a copy at
/// its end: ` copy ` followed by digits, in any case.
pub open spec fn normal_title(raw: Seq<char>) -> Seq<char> {
    let t = trimmed(raw);
    let lower = lowered(t);
    match last_match(lower, " copy "@) {
        Some(i) => {
            let suffix = lower.skip(i + " copy "@.len());
            if suffix.len() > 0 && all_digits(suffix) {
                trimmed_end(t.take(i))
            } else {
                t
            }
        },
        None => t,
    }
}

/// The pairs of artist and title to search a track by, in the order in which
/// they are tried. Where the file's name without its extension holds ` - `,
/// the part before it is taken for the artist first and for the title next;
/// else the whole is the title and the artist is empty.
pub open spec fn candidates_of(path: Seq<char>) -> Seq<(Seq<char>, Seq<char>)> {
    let stem = stem_of(file_name_of(path));
    match split_first(stem, " - "@) {
        Some((left, right)) => seq![
            (trimmed(left), normal_title(right)),
            (trimmed(right), normal_title(left)),
        ],
        None => seq![(Seq::empty(), normal_title(stem))],
    }
}

/// Pairs of strings as contracts see them.
pub open spec fn pairs(v: Seq<(String, String)>) -> Seq<(Seq<char>, Seq<char>)> {
    v.map_values(|p: (String, String)| (p.0@, p.1@))
}

/// Gives a title without white space around it and without a mark of a copy.
pub fn normalize_title(raw: &Vec<char>) -> (r: Vec<char>)
    ensures
        r@ == normal_title(raw@),
{
    let t = trim(raw);
    let lower = to_ascii_lowercase(&t);
    let copy = chars_of(" copy ");
    match rfind(&lower, &copy) {
        Some(i) => {
            proof {
                lemma_last_match(lower@, copy@, lower@.len() - copy@.len());
            }
            assert(i + copy.len() <= lower.len());
            let suffix = slice_of(&lower, i + copy.len(), lower.len());
            if suffix.len() > 0 && only_digits(&suffix) {
                let head = slice_of(&t, 0, i);
                assert(head@ =~= t@.take(i as int));
                trim_end(&head)
            } else {
                t
            }
        },
        None => t,
    }
}

/// Gives the pairs of artist and title to search a track by.
pub fn candidates(path: &str) -> (r: Vec<(String, String)>)
    ensures
        pairs(r@) == candidates_of(path@),
{
    let p = chars_of(path);
    let st = stem(&file_name(&p));
    let mut r: Vec<(String, String)> = Vec::new();
    match split_once(&st, &chars_of(" - ")) {
        Some((left, right)) => {
            let a1 = string_of(&trim(&left));
            let t1 = string_of(&normalize_title(&right));
            let a2 = string_of(&trim(&right));
            let t2 = string_of(&normalize_title(&left));
            r.push((a1, t1));
            r.push((a2, t2));
            assert(pairs(r@) =~= candidates_of(path@));
        },
        None => {
            let t = string_of(&normalize_title(&st));
            r.push((String::new(), t));
            assert(pairs(r@) =~= candidates_of(path@));
        },
    }
    r
}

/// Where the resolution of a track stands.
#[derive(Debug, Clone, Copy, PartialEq, Eq, Structural)]
pub enum ResolveStage {
    /// The cache was asked for the track.
    LookingUp,
    /// The file's tags were asked for an ISRC.
    Extracting,
    /// The ISRC from the tags is being recorded.
    SavingIsrc,
    /// The provider was asked for the track by its ISRC.
    SearchingIsrc,
    /// The provider was asked for the track by artist and title.
    Searching,
    /// The provider was asked for the ISRC of the track found.
    LookingUpIsrc,
    /// The URI found is being recorded.
    Saving,
    /// The URI is known.
    Resolved,
    /// Every way was tried and none gave a URI.
    Unresolved,
}

/// The resolution of one track for one provider.
#[derive(Debug, Clone, PartialEq, Eq)]
pub struct Resolver {
    pub stage: ResolveStage,
    pub provider: String,
    pub path: String,
    /// The ISRC of the track, as far as it is known.
    pub isrc: Option<String>,
    /// Which pair of `candidates_of` is being tried.
    pub next: usize,
    /// The URI of the track, once it is known.
    pub uri: Option<String>,
}

/// A resolution as contracts see it.
pub struct ResolverView {
    pub stage: ResolveStage,
    pub provider: Seq<char>,
    pub path: Seq<char>,
    pub isrc: Option<Seq<char>>,
    pub next: usize,
    pub uri: Option<Seq<char>>,
}

impl View for Resolver {
    type V = ResolverView;

    open spec fn view(&self) -> ResolverView {
        ResolverView {
            stage: self.stage,
            provider: self.provider@,
            path: self.path@,
            isrc: opt_text(self.isrc),
            next: self.next,
            uri: opt_text(self.uri),
        }
    }
}

/// A request as contracts see it, where there is one.
pub open spec fn opt_request(r: Option<Request>) -> Option<RequestView> {
    match r {
        Some(q) => Some(q@),
        None => None,
    }
}

/// Whether the resolution is over.
pub open spec fn is_over(r: ResolverView) -> bool {
    r.stage == ResolveStage::Resolved || r.stage == ResolveStage::Unresolved
}

/// The search by the pair of artist and title at position `k`.
pub open spec fn search_request(path: Seq<char>, k: int) -> RequestView {
    RequestView::Search { title: candidates_of(path)[k].1, artist: candidates_of(path)[k].0 }
}

/// The request that records `uri` for the track, with the ISRC `isrc`.
pub open spec fn store_request(
    r: ResolverView,
    isrc: Option<Seq<char>>,
    uri: Option<Seq<char>>,
) -> RequestView {
    RequestView::CacheStore { provider: r.provider, local_path: r.path, isrc, uri }
}

/// The first search by artist and title.
pub open spec fn first_search(r: ResolverView) -> (ResolverView, Option<RequestView>) {
    (
        ResolverView { stage: ResolveStage::Searching, next: 0, ..r },
        Some(search_request(r.path, 0)),
    )
}

/// How the resolution of `path` for `provider` begins: over at once where the
/// path names its URI, else with a look into the cache.
pub open spec fn resolver_begin(provider: Seq<char>, path: Seq<char>) -> (
    ResolverView,
    Option<RequestView>,
) {
    match uri_override(path) {
        Some(uri) => (
            ResolverView {
                stage: ResolveStage::Resolved,
                provider,
                path,
                isrc: None,
                next: 0,
                uri: Some(uri),
            },
            None,
        ),
        None => (
            ResolverView {
                stage: ResolveStage::LookingUp,
                provider,
                path,
                isrc: None,
                next: 0,
                uri: None,
            },
            Some(RequestView::CacheLookup { provider, local_path: path }),
        ),
    }
}

/// How the resolution goes on after the answer `resp` to its last request:
/// its new state and its next request, or none where it is over.
pub open spec fn resolver_next(r: ResolverView, resp: ResponseView) -> (
    ResolverView,
    Option<RequestView>,
) {
    match r.stage {
        ResolveStage::LookingUp => match resp {
            ResponseView::Cached { found: true, isrc, uri: Some(uri) } => (
                ResolverView { stage: ResolveStage::Resolved, isrc, uri: Some(uri), ..r },
                None,
            ),
            ResponseView::Cached { found: true, isrc: Some(code), uri: None } => (
                ResolverView { stage: ResolveStage::SearchingIsrc, isrc: Some(code), ..r },
                Some(RequestView::SearchByIsrc { code }),
            ),
            _ => (
                ResolverView { stage: ResolveStage::Extracting, ..r },
                Some(RequestView::ExtractIsrc { local_path: r.path }),
            ),
        },
        ResolveStage::Extracting => match resp {
            ResponseView::Text(Some(code)) => (
                ResolverView { stage: ResolveStage::SavingIsrc, isrc: Some(code), ..r },
                Some(store_request(r, Some(code), None)),
            ),
            _ => first_search(r),
        },
        ResolveStage::SavingIsrc => match r.isrc {
            Some(code) => (
                ResolverView { stage: ResolveStage::SearchingIsrc, ..r },
                Some(RequestView::SearchByIsrc { code }),
            ),
            None => first_search(r),
        },
        ResolveStage::SearchingIsrc => match resp {
            ResponseView::Text(Some(uri)) => (
                ResolverView { stage: ResolveStage::Saving, uri: Some(uri), ..r },
                Some(store_request(r, r.isrc, Some(uri))),
            ),
            _ => first_search(r),
        },
        ResolveStage::Searching => match resp {
            ResponseView::Text(Some(uri)) => if r.isrc is Some {
                (
                    ResolverView { stage: ResolveStage::Saving, uri: Some(uri), ..r },
                    Some(store_request(r, r.isrc, Some(uri))),
                )
            } else {
                (
                    ResolverView { stage: ResolveStage::LookingUpIsrc, uri: Some(uri), ..r },
                    Some(RequestView::LookupIsrc { track: uri }),
                )
            },
            _ => if r.next + 1 < candidates_of(r.path).len() {
                (
                    ResolverView { next: (r.next + 1) as usize, ..r },
                    Some(search_request(r.path, r.next + 1)),
                )
            } else {
                (ResolverView { stage: ResolveStage::Unresolved, ..r }, None)
            },
        },
        ResolveStage::LookingUpIsrc => {
            let isrc = match resp {
                ResponseView::Text(t) => t,
                _ => None,
            };
            (
                ResolverView { stage: ResolveStage::Saving, isrc, ..r },
                Some(store_request(r, isrc, r.uri)),
            )
        },
        ResolveStage::Saving => (ResolverView { stage: ResolveStage::Resolved, ..r }, None),
        ResolveStage::Resolved => (r, None),
        ResolveStage::Unresolved => (r, None),
    }
}

impl Resolver {
    /// Begins the resolution of the track at `path` for `provider`.
    pub fn begin(provider: &str, path: &str) -> (r: (Resolver, Option<Request>))
        ensures
            (r.0@, opt_request(r.1)) == resolver_begin(provider@, path@),
    {
        let p = chars_of(path);
        let mark = chars_of("uri::");
        if starts_with(&p, &mark) {
            let uri = string_of(&slice_of(&p, mark.len(), p.len()));
            (
                Resolver {
                    stage: ResolveStage::Resolved,
                    provider: String::from_str(provider),
                    path: String::from_str(path),
                    isrc: None,
                    next: 0,
                    uri: Some(uri),
                },
                None,
            )
        } else {
            (
                Resolver {
                    stage: ResolveStage::LookingUp,
                    provider: String::from_str(provider),
                    path: String::from_str(path),
                    isrc: None,
                    next: 0,
                    uri: None,
                },
                Some(
                    Request::CacheLookup {
                        provider: String::from_str(provider),
                        local_path: String::from_str(path),
                    },
                ),
            )
        }
    }

    fn search(self, k: usize) -> (r: (Resolver, Option<Request>))
        requires
            k < candidates_of(self.path@).len(),
        ensures
            r.0@ == (ResolverView { stage: ResolveStage::Searching, next: k, ..self@ }),
            opt_request(r.1) == Some(search_request(self.path@, k as int)),
    {
        let mut c = candidates(self.path.as_str());
        assert(pairs(c@)[k as int] == candidates_of(self.path@)[k as int]);
        let ghost pair = c@[k as int];
        let (artist, title) = c.swap_remove(k);
        assert(artist@ == pair.0@ && title@ == pair.1@);
        (
            Resolver { stage: ResolveStage::Searching, next: k, ..self },
            Some(Request::Search { title, artist }),
        )
    }

    fn store(self, stage: ResolveStage, isrc: Option<String>, uri: Option<String>) -> (r: (
        Resolver,
        Option<Request>,
    ))
        ensures
            r.0@ == (ResolverView { stage, isrc: opt_text(isrc), uri: opt_text(uri), ..self@ }),
            opt_request(r.1) == Some(store_request(self@, opt_text(isrc), opt_text(uri))),
    {
        let req = Request::CacheStore {
            provider: self.provider.clone(),
            local_path: self.path.clone(),
            isrc: crate::models::copy_opt(&isrc),
            uri: crate::models::copy_opt(&uri),
        };
        (Resolver { stage, isrc, uri, ..self }, Some(req))
    }

    /// Goes on with the resolution after the answer to its last request.
    pub fn advance(self, resp: Response) -> (r: (Resolver, Option<Request>))
        ensures
            (r.0@, opt_request(r.1)) == resolver_next(self@, resp@),
    {
        proof {
            lemma_candidates_not_empty(self.path@);
        }
        match self.stage {
            ResolveStage::LookingUp => match resp {
                Response::Cached { found: true, isrc, uri: Some(uri) } => (
                    Resolver { stage: ResolveStage::Resolved, isrc, uri: Some(uri), ..self },
                    None,
                ),
                Response::Cached { found: true, isrc: Some(code), uri: None } => {
                    let req = Request::SearchByIsrc { code: code.clone() };
                    (
                        Resolver { stage: ResolveStage::SearchingIsrc, isrc: Some(code), ..self },
                        Some(req),
                    )
                },
                _ => {
                    let req = Request::ExtractIsrc { local_path: self.path.clone() };
                    (Resolver { stage: ResolveStage::Extracting, ..self }, Some(req))
                },
            },
            ResolveStage::Extracting => match resp {
                Response::Text(Some(code)) => {
                    let uri = crate::models::copy_opt(&self.uri);
                    let r = self.store(ResolveStage::SavingIsrc, Some(code), None);
                    (Resolver { uri, ..r.0 }, r.1)
                },
                _ => self.search(0),
            },
            ResolveStage::SavingIsrc => match &self.isrc {
                Some(code) => {
                    let req = Request::SearchByIsrc { code: code.clone() };
                    (Resolver { stage: ResolveStage::SearchingIsrc, ..self }, Some(req))
                },
                None => self.search(0),
            },
            ResolveStage::SearchingIsrc => match resp {
                Response::Text(Some(uri)) => {
                    let isrc = crate::models::copy_opt(&self.isrc);
                    self.store(ResolveStage::Saving, isrc, Some(uri))
                },
                _ => self.search(0),
            },
            ResolveStage::Searching => match resp {
                Response::Text(Some(uri)) => {
                    if self.isrc.is_some() {
                        let isrc = crate::models::copy_opt(&self.isrc);
                        self.store(ResolveStage::Saving, isrc, Some(uri))
                    } else {
                        let req = Request::LookupIsrc { track: uri.clone() };
                        (
                            Resolver {
                                stage: ResolveStage::LookingUpIsrc,
                                uri: Some(uri),
                                ..self
                            },
                            Some(req),
                        )
                    }
                },
                _ => {
                    let c = candidates(self.path.as_str());
                    let n = c.len();
                    assert(n == pairs(c@).len());
                    if self.next < n - 1 {
                        let k = self.next + 1;
                        self.search(k)
                    } else {
                        (Resolver { stage: ResolveStage::Unresolved, ..self }, None)
                    }
                },
            },
            ResolveStage::LookingUpIsrc => {
                let isrc = match resp {
                    Response::Text(t) => t,
                    _ => None,
                };
                let uri = crate::models::copy_opt(&self.uri);
                self.store(ResolveStage::Saving, isrc, uri)
            },
            ResolveStage::Saving => (Resolver { stage: ResolveStage::Resolved, ..self }, None),
            ResolveStage::Resolved => (self, None),
            ResolveStage::Unresolved => (self, None),
        }
    }
}

/// A track always has a pair of artist and title to be searched by.
pub proof fn lemma_candidates_not_empty(path: Seq<char>)
    ensures
        1 <= candidates_of(path).len() <= 2,
{
}


/// A resolution that is over asks for nothing more and stays as it is.
pub proof fn lemma_over_stays(r: ResolverView, resp: ResponseView)
    requires
        is_over(r),
    ensures
        resolver_next(r, resp) == (r, None::<RequestView>),
{
}

/// A URI that a search finds is recorded in the cache, for the provider and
/// the path of the track, before the resolution is over; the resolution then
/// ends on that URI.
pub proof fn lemma_found_uri_is_stored(r: ResolverView, resp: ResponseView, after: ResponseView)
    requires
        r.stage == ResolveStage::SearchingIsrc || r.stage == ResolveStage::Searching || (r.stage
            == ResolveStage::LookingUpIsrc && r.uri is Some),
    ensures
        ({
            let (r2, q) = resolver_next(r, resp);
            r2.stage == ResolveStage::Saving ==> {
                &&& r2.uri is Some
                &&& q == Some(
                    RequestView::CacheStore {
                        provider: r.provider,
                        local_path: r.path,
                        isrc: r2.isrc,
                        uri: r2.uri,
                    },
                )
                &&& resolver_next(r2, after) == (
                    ResolverView { stage: ResolveStage::Resolved, ..r2 },
                    None::<RequestView>,
                )
            }
        }),
{
}

} // verus!
