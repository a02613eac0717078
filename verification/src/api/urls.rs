//! The addresses that the providers are called at.
use crate::models::{opt_text, pair_views};
use crate::text::same_str;
use vstd::prelude::*;
use vstd::utf8::encode_utf8;

verus! {

/// The digit, `0` to `9` and then `A` to `F`, for a number below 16.
pub open spec fn hex_digit(d: u8) -> char {
    if d < 10 {
        (48 + d) as u8 as char
    } else {
        (55 + d) as u8 as char
    }
}

/// `%` and the two hexadecimal digits of a byte.
pub open spec fn percent_byte(b: u8) -> Seq<char> {
    seq!['%', hex_digit(b / 16), hex_digit(b % 16)]
}

/// Whether a byte is a digit or a letter of the English alphabet.
pub open spec fn is_alnum(b: u8) -> bool {
    (48 <= b <= 57) || (65 <= b <= 90) || (97 <= b <= 122)
}

/// Whether percent-encoding leaves a byte as it is: letters, digits, `-`,
/// `.`, `_` and `~`.
pub open spec fn is_unreserved(b: u8) -> bool {
    is_alnum(b) || b == 45 || b == 46 || b == 95 || b == 126
}

/// The bytes with every byte percent-encoded but for the unreserved ones.
pub open spec fn percent_encoded(bytes: Seq<u8>) -> Seq<char>
    decreases bytes.len(),
{
    if bytes.len() == 0 {
        Seq::empty()
    } else if is_unreserved(bytes.last()) {
        percent_encoded(bytes.drop_last()).push(bytes.last() as char)
    } else {
        percent_encoded(bytes.drop_last()) + percent_byte(bytes.last())
    }
}

/// The bytes as a form writes them in an address: letters, digits, `*`, `-`,
/// `.` and `_` as they are, a space as `+`, any other byte percent-encoded.
pub open spec fn form_encoded(bytes: Seq<u8>) -> Seq<char>
    decreases bytes.len(),
{
    if bytes.len() == 0 {
        Seq::empty()
    } else {
        let b = bytes.last();
        let rest = form_encoded(bytes.drop_last());
        if is_alnum(b) || b == 42 || b == 45 || b == 46 || b == 95 {
            rest.push(b as char)
        } else if b == 32 {
            rest.push('+')
        } else {
            rest + percent_byte(b)
        }
    }
}

/// Percent-encodes a text with `urlencoding::encode`, which leaves letters,
/// digits, `-`, `.`, `_` and `~` as they are and writes any other byte of the
/// text as `%` and two capital hexadecimal digits.
#[verifier::external_body]
fn percent_encode(text: &str) -> (r: String)
    ensures
        r@ == percent_encoded(encode_utf8(text@)),
{
    urlencoding::encode(text).into_owned()
}

/// Encodes a text with `url::form_urlencoded::byte_serialize`, which leaves
/// letters, digits, `*`, `-`, `.` and `_` as they are, writes a space as `+`
/// and any other byte as `%` and two capital hexadecimal digits.
#[verifier::external_body]
fn form_encode(text: &str) -> (r: String)
    ensures
        r@ == form_encoded(encode_utf8(text@)),
{
    url::form_urlencoded::byte_serialize(text.as_bytes()).collect()
}

/// What `url::Url::parse` and `Url::query_pairs` give for an address: `None`
/// where it is not one, else the names and values of its query, decoded, in
/// order.
pub uninterp spec fn query_of(address: Seq<char>) -> Option<Seq<(Seq<char>, Seq<char>)>>;

/// What `url::Url::parse`, `Url::query_pairs_mut` with `extend_pairs`, and
/// the `Display` of `Url` give: `None` where `base` is not an address, else
/// the address with the names and values added to its query.
pub uninterp spec fn address_with(base: Seq<char>, pairs: Seq<(Seq<char>, Seq<char>)>) -> Option<
    Seq<char>,
>;

/// Names and values as contracts see them, where there are any.
pub open spec fn opt_pairs(o: Option<Vec<(String, String)>>) -> Option<
    Seq<(Seq<char>, Seq<char>)>,
> {
    match o {
        Some(v) => Some(pair_views(v@)),
        None => None,
    }
}

/// Reads an address with `url::Url::parse` and lists the names and values of
/// its query with `Url::query_pairs`. The contract names the result and
/// claims that it depends on the address alone.
#[verifier::external_body]
fn query_pairs(address: &str) -> (r: Option<Vec<(String, String)>>)
    ensures
        opt_pairs(r) == query_of(address@),
{
    match url::Url::parse(address) {
        Ok(u) => Some(u.query_pairs().map(|(k, v)| (k.into_owned(), v.into_owned())).collect()),
        Err(_) => None,
    }
}

/// Reads `base` with `url::Url::parse`, adds names and values to its query
/// with `Url::query_pairs_mut` and `extend_pairs`, and writes the address out.
/// The contract names the result and claims that it depends on the arguments
/// alone.
#[verifier::external_body]
fn with_query(base: &str, pairs: &Vec<(String, String)>) -> (r: Option<String>)
    ensures
        opt_text(r) == address_with(base@, pair_views(pairs@)),
{
    match url::Url::parse(base) {
        Ok(mut u) => {
            u.query_pairs_mut().extend_pairs(pairs.iter());
            Some(u.to_string())
        },
        Err(_) => None,
    }
}

/// The value under the first name `key` among names and values.
pub open spec fn first_value(pairs: Seq<(Seq<char>, Seq<char>)>, key: Seq<char>) -> Option<
    Seq<char>,
>
    decreases pairs.len(),
{
    if pairs.len() == 0 {
        None
    } else if pairs[0].0 == key {
        Some(pairs[0].1)
    } else {
        first_value(pairs.drop_first(), key)
    }
}

/// Gives the value under the first name `key` among names and values.
pub fn value_of(pairs: &Vec<(String, String)>, key: &str) -> (r: Option<String>)
    ensures
        opt_text(r) == first_value(pair_views(pairs@), key@),
{
    let ghost ps = pair_views(pairs@);
    let mut i: usize = 0;
    assert(ps.skip(0) =~= ps);
    while i < pairs.len()
        invariant
            i <= pairs.len(),
            ps == pair_views(pairs@),
            first_value(ps, key@) == first_value(ps.skip(i as int), key@),
        decreases pairs.len() - i,
    {
        proof {
            assert(ps.skip(i as int)[0] == (pairs@[i as int].0@, pairs@[i as int].1@));
            assert(ps.skip(i as int).drop_first() =~= ps.skip(i + 1));
        }
        if same_str(pairs[i].0.as_str(), key) {
            return Some(pairs[i].1.clone());
        }
        i += 1;
    }
    None
}

/// Why no code was found in the address that the user was sent back to.
#[derive(Debug, Clone, Copy, PartialEq, Eq, Structural)]
pub enum RedirectError {
    /// The text is not an address.
    NotAnAddress,
    /// The address holds no `code`.
    NoCode,
}

/// The code in the address that the user was sent back to after granting
/// access, given the query of the address.
pub open spec fn code_in(query: Option<Seq<(Seq<char>, Seq<char>)>>) -> Result<
    Seq<char>,
    RedirectError,
> {
    match query {
        None => Err(RedirectError::NotAnAddress),
        Some(pairs) => match first_value(pairs, "code"@) {
            Some(code) => Ok(code),
            None => Err(RedirectError::NoCode),
        },
    }
}

/// Finds the code among the names and values of a query.
pub fn code_among(query: Option<Vec<(String, String)>>) -> (r: Result<String, RedirectError>)
    ensures
        match r {
            Ok(code) => code_in(opt_pairs(query)) == Ok::<Seq<char>, RedirectError>(code@),
            Err(e) => code_in(opt_pairs(query)) == Err::<Seq<char>, RedirectError>(e),
        },
{
    match query {
        None => Err(RedirectError::NotAnAddress),
        Some(pairs) => match value_of(&pairs, "code") {
            Some(code) => Ok(code),
            None => Err(RedirectError::NoCode),
        },
    }
}

/// Finds the code in the address that the user was sent back to.
pub fn code_of_redirect(address: &str) -> (r: Result<String, RedirectError>)
    ensures
        match r {
            Ok(code) => code_in(query_of(address@)) == Ok::<Seq<char>, RedirectError>(code@),
            Err(e) => code_in(query_of(address@)) == Err::<Seq<char>, RedirectError>(e),
        },
{
    code_among(query_pairs(address))
}

/// What the program asks Spotify to be allowed to do.
pub open spec fn spotify_scope() -> Seq<char> {
    "playlist-modify-private playlist-modify-public playlist-read-private user-read-private user-read-email"@
}

/// The names and values of the address at which a user grants access.
pub open spec fn authorize_pairs(client_id: Seq<char>, redirect_uri: Seq<char>) -> Seq<
    (Seq<char>, Seq<char>),
> {
    seq![
        ("response_type"@, "code"@),
        ("client_id"@, client_id),
        ("scope"@, spotify_scope()),
        ("redirect_uri"@, redirect_uri),
        ("show_dialog"@, "true"@),
    ]
}

/// Gives the address at which a user grants the program access to Spotify.
pub fn spotify_authorize_url(client_id: &str, redirect_uri: &str) -> (r: Option<String>)
    ensures
        opt_text(r) == address_with(
            "https://accounts.spotify.com/authorize"@,
            authorize_pairs(client_id@, redirect_uri@),
        ),
{
    let mut pairs: Vec<(String, String)> = Vec::new();
    pairs.push((String::from_str("response_type"), String::from_str("code")));
    pairs.push((String::from_str("client_id"), String::from_str(client_id)));
    pairs.push(
        (
            String::from_str("scope"),
            String::from_str(
                "playlist-modify-private playlist-modify-public playlist-read-private user-read-private user-read-email",
            ),
        ),
    );
    pairs.push((String::from_str("redirect_uri"), String::from_str(redirect_uri)));
    pairs.push((String::from_str("show_dialog"), String::from_str("true")));
    assert(pair_views(pairs@) =~= authorize_pairs(client_id@, redirect_uri@));
    with_query("https://accounts.spotify.com/authorize", &pairs)
}

/// The text of a search on Spotify by title and artist.
pub open spec fn spotify_query(title: Seq<char>, artist: Seq<char>) -> Seq<char> {
    "track:"@ + title + " artist:"@ + artist
}

/// Gives the address of a search on Spotify for the text `q`.
fn spotify_search(api_base: &str, q: &String) -> (r: String)
    ensures
        r@ == api_base@ + "/search?q="@ + percent_encoded(encode_utf8(q@))
            + "&type=track&limit=1"@,
{
    let mut r = String::from_str(api_base);
    r.append("/search?q=");
    r.append(percent_encode(q.as_str()).as_str());
    r.append("&type=track&limit=1");
    r
}

/// Gives the address of a search on Spotify by title and artist.
pub fn spotify_search_url(api_base: &str, title: &str, artist: &str) -> (r: String)
    ensures
        r@ == api_base@ + "/search?q="@ + percent_encoded(
            encode_utf8(spotify_query(title@, artist@)),
        ) + "&type=track&limit=1"@,
{
    let mut q = String::from_str("track:");
    q.append(title);
    q.append(" artist:");
    q.append(artist);
    spotify_search(api_base, &q)
}

/// Gives the address of a search on Spotify by ISRC.
pub fn spotify_isrc_search_url(api_base: &str, isrc: &str) -> (r: String)
    ensures
        r@ == api_base@ + "/search?q="@ + percent_encoded(encode_utf8("isrc:"@ + isrc@))
            + "&type=track&limit=1"@,
{
    let mut q = String::from_str("isrc:");
    q.append(isrc);
    spotify_search(api_base, &q)
}

/// Gives the address of the playlists of a user on Spotify.
pub fn spotify_user_playlists_url(api_base: &str, user_id: &str) -> (r: String)
    ensures
        r@ == api_base@ + "/users/"@ + form_encoded(encode_utf8(user_id@)) + "/playlists"@,
{
    let mut r = String::from_str(api_base);
    r.append("/users/");
    r.append(form_encode(user_id).as_str());
    r.append("/playlists");
    r
}

/// Gives the address of a search on Tidal for the title, a space and the
/// artist.
pub fn tidal_search_url(base: &str, title: &str, artist: &str, country: &str) -> (r: String)
    ensures
        r@ == base@ + "/search/tracks?query="@ + percent_encoded(
            encode_utf8(title@ + " "@ + artist@),
        ) + "&limit=1&countryCode="@ + country@,
{
    let mut q = String::from_str(title);
    q.append(" ");
    q.append(artist);
    let mut r = String::from_str(base);
    r.append("/search/tracks?query=");
    r.append(percent_encode(q.as_str()).as_str());
    r.append("&limit=1&countryCode=");
    r.append(country);
    r
}

} // verus!
