//! Proof keys for the exchange of an authorisation code.
use base64::Engine;
use rand::Rng;
use sha2::Digest;
use vstd::prelude::*;
use vstd::utf8::encode_utf8;

verus! {

/// The SHA-256 digest of `data`, as `sha2::Sha256::digest` computes it.
pub uninterp spec fn sha256(data: Seq<u8>) -> Seq<u8>;

/// The text that the base64 engine `URL_SAFE_NO_PAD` writes for `data`.
pub uninterp spec fn base64_url(data: Seq<u8>) -> Seq<char>;

/// The text that the base64 engine `STANDARD` writes for `data`.
pub uninterp spec fn base64_standard(data: Seq<u8>) -> Seq<char>;

/// The greatest number of bytes that this library hands to a base64 engine.
/// The engines fail where the text for the bytes would not fit in memory;
/// this bound keeps far from that.
pub open spec fn base64_limit() -> int {
    0x1000_0000
}

/// Computes the digest with `sha2::Sha256::digest`. The contract names the
/// result and claims that it depends on the data alone and is 32 bytes long.
#[verifier::external_body]
fn sha256_digest(data: &[u8]) -> (r: Vec<u8>)
    ensures
        r@ == sha256(data@),
        r@.len() == 32,
{
    sha2::Sha256::digest(data).to_vec()
}

/// Encodes with `base64::engine::general_purpose::URL_SAFE_NO_PAD`. The
/// contract names the result and claims that it depends on the data alone.
#[verifier::external_body]
fn encode_url_no_pad(data: &[u8]) -> (r: String)
    requires
        data@.len() <= base64_limit(),
    ensures
        r@ == base64_url(data@),
{
    base64::engine::general_purpose::URL_SAFE_NO_PAD.encode(data)
}

/// Encodes with `base64::engine::general_purpose::STANDARD`. The contract
/// names the result and claims that it depends on the data alone.
#[verifier::external_body]
fn encode_standard(data: &[u8]) -> (r: String)
    requires
        data@.len() <= base64_limit(),
    ensures
        r@ == base64_standard(data@),
{
    base64::engine::general_purpose::STANDARD.encode(data)
}

/// Whether `c` is a letter of the English alphabet or a digit.
pub open spec fn is_alphanumeric(c: char) -> bool {
    ('a' <= c && c <= 'z') || ('A' <= c && c <= 'Z') || ('0' <= c && c <= '9')
}

/// Draws `n` characters with `rand::thread_rng` and the distribution
/// `Alphanumeric`. The contract claims what holds of every draw: there are
/// `n` characters, each a letter of the English alphabet or a digit.
#[verifier::external_body]
fn random_alphanumeric(n: usize) -> (r: String)
    ensures
        r@.len() == n,
        forall|i: int| 0 <= i < r@.len() ==> is_alphanumeric(#[trigger] r@[i]),
{
    rand::thread_rng().sample_iter(&rand::distributions::Alphanumeric).take(n).map(char::from).collect()
}

/// A new code verifier: 64 random letters and digits.
pub fn generate_code_verifier() -> (r: String)
    ensures
        r@.len() == 64,
        forall|i: int| 0 <= i < r@.len() ==> is_alphanumeric(#[trigger] r@[i]),
{
    random_alphanumeric(64)
}

/// The challenge for a code verifier: the SHA-256 digest of its bytes, in
/// base64 for URLs and without padding.
pub fn code_challenge_s256(verifier: &str) -> (r: String)
    ensures
        r@ == base64_url(sha256(encode_utf8(verifier@))),
{
    let hash = sha256_digest(verifier.as_bytes());
    encode_url_no_pad(hash.as_slice())
}

/// The bytes of the client's id, a colon and the client's secret.
pub open spec fn credentials_bytes(client_id: Seq<char>, client_secret: Seq<char>) -> Seq<u8> {
    encode_utf8(client_id) + seq![58u8] + encode_utf8(client_secret)
}

/// The `Authorization` header of basic authentication: `Basic ` and the
/// base64 text of the client's id, a colon and the client's secret. `None`
/// where the two are longer than `base64_limit`.
pub fn basic_auth_header(client_id: &str, client_secret: &str) -> (r: Option<String>)
    ensures
        match r {
            Some(h) => credentials_bytes(client_id@, client_secret@).len() <= base64_limit() && h@
                == "Basic "@ + base64_standard(credentials_bytes(client_id@, client_secret@)),
            None => credentials_bytes(client_id@, client_secret@).len() > base64_limit(),
        },
{
    let a = client_id.as_bytes();
    let b = client_secret.as_bytes();
    if a.len() > 0x1000_0000 || b.len() > 0x1000_0000 || a.len() + b.len() + 1 > 0x1000_0000 {
        return None;
    }
    let mut bytes: Vec<u8> = Vec::new();
    let mut i: usize = 0;
    while i < a.len()
        invariant
            i <= a.len(),
            bytes@ == a@.take(i as int),
        decreases a.len() - i,
    {
        bytes.push(a[i]);
        assert(a@.take(i + 1) =~= a@.take(i as int).push(a@[i as int]));
        i += 1;
    }
    assert(a@.take(a.len() as int) =~= a@);
    bytes.push(58u8);
    let mut j: usize = 0;
    while j < b.len()
        invariant
            j <= b.len(),
            bytes@ == a@ + seq![58u8] + b@.take(j as int),
        decreases b.len() - j,
    {
        bytes.push(b[j]);
        assert(b@.take(j + 1) =~= b@.take(j as int).push(b@[j as int]));
        assert(a@ + seq![58u8] + b@.take(j + 1) =~= (a@ + seq![58u8] + b@.take(j as int)).push(
            b@[j as int],
        ));
        j += 1;
    }
    assert(b@.take(b.len() as int) =~= b@);
    let encoded = encode_standard(bytes.as_slice());
    let mut h = String::from_str("Basic ");
    h.append(encoded.as_str());
    Some(h)
}

} // verus!
