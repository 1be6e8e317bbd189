//! The calls into other crates, and what the rest of the library relies on of
//! them.

use base64::Engine;
use rand::seq::SliceRandom;
use rand::RngCore;
use sha2::Digest;
use std::fmt::Write;
use vstd::prelude::*;

use crate::text::{decimal, is_alnum, is_upper, texts};

verus! {

/// The SHA-256 digest of a message.
pub uninterp spec fn sha256_digest(message: Seq<u8>) -> Seq<u8>;

/// `sha2::Sha256::digest`: the digest is a function of the message, and it has
/// 32 bytes.
#[verifier::external_body]
pub(crate) fn sha256(message: &[u8]) -> (r: Vec<u8>)
    ensures
        r@ == sha256_digest(message@),
        r@.len() == 32,
{
    sha2::Sha256::digest(message).to_vec()
}

/// The Base64 text of some bytes, with the URL-safe alphabet and no padding.
pub uninterp spec fn base64url_text(bytes: Seq<u8>) -> Seq<char>;

/// A character of the URL-safe Base64 alphabet.
pub open spec fn is_base64url_char(c: char) -> bool {
    is_alnum(c) || c == '-' || c == '_'
}

/// `base64::Engine::encode` of `URL_SAFE_NO_PAD`: the text is a function of the
/// bytes, it takes four characters for each three bytes and two or three for
/// the one or two bytes that are left, and all of them are of the URL-safe
/// alphabet.
#[verifier::external_body]
pub(crate) fn base64url(bytes: &Vec<u8>) -> (r: String)
    requires
        bytes@.len() <= 0x1000_0000,
    ensures
        r@ == base64url_text(bytes@),
        r@.len() == (bytes@.len() * 4 + 2) / 3,
        forall|i: int| 0 <= i < r@.len() ==> is_base64url_char(#[trigger] r@[i]),
{
    base64::engine::general_purpose::URL_SAFE_NO_PAD.encode(bytes)
}

/// `rand::rngs::OsRng.fill_bytes`: as many bytes as asked for. Which ones is up
/// to the system's source of randomness, so nothing is said of their values. Where
/// the system has no such source the call does not return.
#[verifier::external_body]
pub(crate) fn random_bytes(n: usize) -> (r: Vec<u8>)
    ensures
        r@.len() == n,
{
    let mut bytes = vec![0u8; n];
    rand::rngs::OsRng.fill_bytes(&mut bytes);
    bytes
}

/// The lowercase form of a text.
pub uninterp spec fn lowercase_text(s: Seq<char>) -> Seq<char>;

/// An ASCII letter in lower case, and any other character as it is.
pub open spec fn ascii_lower(c: char) -> char {
    if is_upper(c) {
        (c as u32 + 32) as char
    } else {
        c
    }
}

/// `str::to_lowercase`: the result is a function of the text, whatever the
/// locale. A text of ASCII characters alone changes letter by letter.
#[verifier::external_body]
pub(crate) fn lowercase(s: &str) -> (r: String)
    ensures
        r@ == lowercase_text(s@),
        (forall|i: int| 0 <= i < s@.len() ==> (#[trigger] s@[i]) as u32 <= 127) ==> r@
            == s@.map_values(|c: char| ascii_lower(c)),
{
    s.to_lowercase()
}

/// A text as debug output writes it: in quotes, with escapes where they are
/// needed.
pub uninterp spec fn debug_text(s: Seq<char>) -> Seq<char>;

/// `Debug` of `str`: the result is a function of the text. A text of ASCII
/// letters, digits and underscores is put in quotes and needs no escapes.
#[verifier::external_body]
pub(crate) fn debug_string(s: &str) -> (r: String)
    ensures
        r@ == debug_text(s@),
        (forall|i: int| 0 <= i < s@.len() ==> is_alnum(#[trigger] s@[i]) || s@[i] == '_') ==> r@
            == "\""@ + s@ + "\""@,
{
    format!("{:?}", s)
}

/// The text that some bytes stand for, with replacement characters for what is
/// not UTF-8.
pub uninterp spec fn lossy_text(bytes: Seq<u8>) -> Seq<char>;

/// `String::from_utf8_lossy`: the text is a function of the bytes. Where they
/// are UTF-8 it is the text that they encode.
#[verifier::external_body]
pub(crate) fn from_utf8_lossy(bytes: &[u8]) -> (r: String)
    ensures
        r@ == lossy_text(bytes@),
        vstd::utf8::valid_utf8(bytes@) ==> r@ == vstd::utf8::decode_utf8(bytes@),
{
    String::from_utf8_lossy(bytes).into_owned()
}

/// The message of the error that bytes which are not UTF-8 give.
pub uninterp spec fn utf8_error_text(bytes: Seq<u8>) -> Seq<char>;

/// `std::str::from_utf8`: the text that the bytes encode, where they are UTF-8,
/// and a message that depends on the bytes alone, where they are not.
#[verifier::external_body]
pub(crate) fn from_utf8(bytes: &[u8]) -> (r: Result<&str, String>)
    ensures
        match r {
            Ok(s) => vstd::utf8::valid_utf8(bytes@) && s@ == vstd::utf8::decode_utf8(bytes@),
            Err(e) => !vstd::utf8::valid_utf8(bytes@) && e@ == utf8_error_text(bytes@),
        },
{
    std::str::from_utf8(bytes).map_err(|e| e.to_string())
}

/// `rand::seq::SliceRandom::shuffle`: the same items, in an order that is left to
/// chance. The generator is seeded by the system's source of randomness; where there
/// is none the call does not return.
#[verifier::external_body]
pub(crate) fn shuffle(v: &mut Vec<&'static str>)
    ensures
        final(v)@.to_multiset() == old(v)@.to_multiset(),
{
    v.shuffle(&mut rand::thread_rng());
}

/// A time in seconds since the epoch as a UTC date and time in the form of the
/// pattern, where it is in the range of dates and the pattern can be written.
pub uninterp spec fn utc_text(secs: i64, pattern: Seq<char>) -> Option<Seq<char>>;

/// `chrono::DateTime::<Utc>::from_timestamp` and `format`: the date and time are
/// a function of the seconds and the pattern.
#[verifier::external_body]
pub(crate) fn format_utc(secs: i64, pattern: &str) -> (r: Option<String>)
    ensures
        crate::text::opt_text(r) == utc_text(secs, pattern@),
{
    let time = chrono::DateTime::<chrono::Utc>::from_timestamp(secs, 0)?;
    let mut s = String::new();
    write!(s, "{}", time.format(pattern)).ok()?;
    Some(s)
}

/// A version `major.minor.patch`.
pub open spec fn release_text(major: u64, minor: u64, patch: u64) -> Seq<char> {
    decimal(major as nat) + "."@ + decimal(minor as nat) + "."@ + decimal(patch as nat)
}

/// The text is a semantic version.
pub uninterp spec fn is_version(text: Seq<char>) -> bool;

/// The first of two semantic versions precedes the second.
pub uninterp spec fn precedes(a: Seq<char>, b: Seq<char>) -> bool;

/// The first release is older than the second.
pub open spec fn older_release(a: (u64, u64, u64), b: (u64, u64, u64)) -> bool {
    a.0 < b.0 || (a.0 == b.0 && (a.1 < b.1 || (a.1 == b.1 && a.2 < b.2)))
}

/// `semver::Version::parse`: whether a text is a semantic version depends on the
/// text alone, and three numbers without leading zeros and with dots between
/// them are one.
#[verifier::external_body]
pub(crate) fn valid_version(text: &str) -> (r: bool)
    ensures
        r == is_version(text@),
        (exists|x: u64, y: u64, z: u64| text@ == #[trigger] release_text(x, y, z)) ==> r,
{
    semver::Version::parse(text).is_ok()
}

/// `PartialOrd` of `semver::Version`: whether a version precedes another depends
/// on their texts alone, and of versions without a pre-release or build part the
/// one with the first smaller number precedes.
#[verifier::external_body]
pub(crate) fn version_before(a: &str, b: &str) -> (r: bool)
    requires
        is_version(a@),
        is_version(b@),
    ensures
        r == precedes(a@, b@),
        forall|p: (u64, u64, u64), q: (u64, u64, u64)|
            a@ == #[trigger] release_text(p.0, p.1, p.2) && b@ == #[trigger] release_text(
                q.0,
                q.1,
                q.2,
            ) ==> r == older_release(p, q),
{
    semver::Version::parse(a).unwrap() < semver::Version::parse(b).unwrap()
}

/// The URL that a text stands for, in its normal form, or the message of the
/// error.
pub uninterp spec fn url_of(text: Seq<char>) -> Result<Seq<char>, Seq<char>>;

/// `url::Url::parse`: the URL, or the message of the error, is a function of the
/// text.
#[verifier::external_body]
pub(crate) fn parse_url(text: &str) -> (r: Result<String, String>)
    ensures
        match r {
            Ok(u) => url_of(text@) == Ok::<Seq<char>, Seq<char>>(u@),
            Err(e) => url_of(text@) == Err::<Seq<char>, Seq<char>>(e@),
        },
{
    url::Url::parse(text).map(|u| u.to_string()).map_err(|e| e.to_string())
}

/// The URL of a path that is relative to another URL, or the message of the
/// error.
pub uninterp spec fn joined_url(base: Seq<char>, path: Seq<char>) -> Result<Seq<char>, Seq<char>>;

/// `url::Url::join`: the URL, or the message of the error, is a function of the
/// texts of the base and the path.
#[verifier::external_body]
pub(crate) fn join_url(base: &str, path: &str) -> (r: Result<String, String>)
    ensures
        match r {
            Ok(u) => joined_url(base@, path@) == Ok::<Seq<char>, Seq<char>>(u@),
            Err(e) => joined_url(base@, path@) == Err::<Seq<char>, Seq<char>>(e@),
        },
{
    url::Url::parse(base).and_then(|b| b.join(path)).map(|u| u.to_string()).map_err(
        |e| e.to_string(),
    )
}

/// The host that a text stands for, in its normal form, or the message of the
/// error.
pub uninterp spec fn host_of(text: Seq<char>) -> Result<Seq<char>, Seq<char>>;

/// `url::Host::parse`: the host, or the message of the error, is a function of
/// the text.
#[verifier::external_body]
pub(crate) fn parse_host(text: &str) -> (r: Result<String, String>)
    ensures
        match r {
            Ok(h) => host_of(text@) == Ok::<Seq<char>, Seq<char>>(h@),
            Err(e) => host_of(text@) == Err::<Seq<char>, Seq<char>>(e@),
        },
{
    url::Host::parse(text).map(|h| h.to_string()).map_err(|e| e.to_string())
}

/// The two-letter code of the country that a text stands for, or the message of
/// the error.
pub uninterp spec fn country_of(text: Seq<char>) -> Result<Seq<char>, Seq<char>>;

/// `isocountry::CountryCode::for_alpha2` and `alpha2`: a text that is the
/// two-letter code of a country stands for that country, any other text for
/// none, and what comes of a text depends on the text alone.
#[verifier::external_body]
pub(crate) fn parse_country(text: &str) -> (r: Result<String, String>)
    ensures
        match r {
            Ok(c) => country_of(text@) == Ok::<Seq<char>, Seq<char>>(c@) && c@ == text@,
            Err(e) => country_of(text@) == Err::<Seq<char>, Seq<char>>(e@),
        },
{
    isocountry::CountryCode::for_alpha2(text).map(|c| c.alpha2().to_owned()).map_err(
        |e| e.to_string(),
    )
}

/// The two-letter codes of the countries in a list that is written as JSON, or the
/// message of the error.
pub uninterp spec fn countries_of(text: Seq<char>) -> Result<Seq<Seq<char>>, Seq<char>>;

/// The list of the countries with these two-letter codes as JSON, or the message of
/// the error.
pub uninterp spec fn countries_text(codes: Seq<Seq<char>>) -> Result<Seq<char>, Seq<char>>;

/// All texts are two-letter codes of countries.
pub open spec fn all_countries(codes: Seq<Seq<char>>) -> bool {
    forall|i: int| 0 <= i < codes.len() ==> country_of(#[trigger] codes[i]) is Ok
}

/// `serde_json::from_str` into a list of `isocountry::CountryCode`, and `alpha2`:
/// the codes, or the message of the error, are a function of the text.
#[verifier::external_body]
pub(crate) fn parse_countries(text: &str) -> (r: Result<Vec<String>, String>)
    ensures
        match r {
            Ok(v) => countries_of(text@) == Ok::<Seq<Seq<char>>, Seq<char>>(texts(v@)),
            Err(e) => countries_of(text@) == Err::<Seq<Seq<char>>, Seq<char>>(e@),
        },
{
    serde_json::from_str::<Vec<isocountry::CountryCode>>(text).map(
        |v| v.iter().map(|c| c.alpha2().to_owned()).collect(),
    ).map_err(|e| e.to_string())
}

/// `serde_json::to_string` of a list of `isocountry::CountryCode`, each of which is
/// found by `for_alpha2`: the text, or the message of the error, is a function of
/// the codes. It succeeds where all of them are codes of countries, and what was
/// written reads back as the same codes.
#[verifier::external_body]
pub(crate) fn print_countries(codes: &Vec<String>) -> (r: Result<String, String>)
    ensures
        r is Ok <==> all_countries(texts(codes@)),
        match r {
            Ok(t) => countries_text(texts(codes@)) == Ok::<Seq<char>, Seq<char>>(t@) && countries_of(
                t@,
            ) == Ok::<Seq<Seq<char>>, Seq<char>>(texts(codes@)),
            Err(e) => countries_text(texts(codes@)) == Err::<Seq<char>, Seq<char>>(e@),
        },
{
    let list: Result<Vec<isocountry::CountryCode>, String> = codes.iter().map(
        |c| isocountry::CountryCode::for_alpha2(c).map_err(|e| e.to_string()),
    ).collect();
    list.and_then(|l| serde_json::to_string(&l).map_err(|e| e.to_string()))
}

} // verus!
