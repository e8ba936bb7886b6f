//! Calls into other crates and into parts of `std` that are trusted by contract.

use crate::text;
use vstd::prelude::*;
use vstd::string::*;

verus! {

/// A text kept in a `secrecy::SecretString`, which wipes it when it is dropped
/// and shows nothing of it in debug output.
#[verifier::external_body]
#[derive(Debug)]
pub struct Secret {
    inner: secrecy::SecretString,
}

/// The text that a secret holds.
pub uninterp spec fn secret_text(s: Secret) -> Seq<char>;

impl View for Secret {
    type V = Seq<char>;

    open spec fn view(&self) -> Seq<char> {
        secret_text(*self)
    }
}

/// `secrecy::SecretString::from`: the secret holds the text.
#[verifier::external_body]
pub(crate) fn secret_from(s: String) -> (r: Secret)
    ensures
        secret_text(r) == s@,
{
    Secret { inner: secrecy::SecretString::from(s) }
}

/// `secrecy::ExposeSecret::expose_secret`: the text that the secret holds.
#[verifier::external_body]
pub(crate) fn expose_secret(s: &Secret) -> (r: &str)
    ensures
        r@ == secret_text(*s),
{
    secrecy::ExposeSecret::expose_secret(&s.inner)
}

/// What is read of a URL.
pub struct UrlView {
    pub scheme: Seq<char>,
    pub username: Seq<char>,
    pub host: Option<Seq<char>>,
    pub port: Option<u16>,
    pub fragment: Option<Seq<char>>,
    pub query: Seq<(Seq<char>, Seq<char>)>,
}

/// What is read of a URL: its parts as `url::Url` gives them, the query as its
/// decoded pairs.
#[derive(Debug)]
pub struct UrlParts {
    pub scheme: String,
    pub username: String,
    pub host: Option<String>,
    pub port: Option<u16>,
    pub fragment: Option<String>,
    pub query: Vec<(String, String)>,
}

impl View for UrlParts {
    type V = UrlView;

    open spec fn view(&self) -> UrlView {
        UrlView {
            scheme: self.scheme@,
            username: self.username@,
            host: text::opt_text(self.host),
            port: self.port,
            fragment: text::opt_text(self.fragment),
            query: crate::text_map::pair_texts(self.query@),
        }
    }
}

/// What `url::Url::parse` reads from a text: the parts, or its error's text.
pub uninterp spec fn read_url(s: Seq<char>) -> Result<UrlView, Seq<char>>;

/// `url::Url::parse` with the accessors `scheme`, `username`, `host_str`,
/// `port`, `fragment` and `query_pairs`: the named parts of the text. An error
/// is handed out as the text it displays as.
#[verifier::external_body]
pub(crate) fn parse_url(s: &str) -> (r: Result<UrlParts, String>)
    ensures
        match r {
            Ok(parts) => read_url(s@) == Ok::<UrlView, Seq<char>>(parts@),
            Err(e) => read_url(s@) == Err::<UrlView, Seq<char>>(e@),
        },
{
    let url = url::Url::parse(s).map_err(|error| error.to_string())?;
    Ok(UrlParts {
        scheme: url.scheme().to_owned(),
        username: url.username().to_owned(),
        host: url.host_str().map(str::to_owned),
        port: url.port(),
        fragment: url.fragment().map(str::to_owned),
        query: url.query_pairs().map(|(k, v)| (k.into_owned(), v.into_owned())).collect(),
    })
}

/// A name or a value of a form: `+` stands for a space, then the percent escapes
/// are resolved.
pub open spec fn form_decoded(s: Seq<char>) -> Seq<char> {
    percent_decoded(text::replaced_char(s, '+', ' '))
}

/// A field of a form: what is before the first `=` and what is behind it.
pub open spec fn form_pair(field: Seq<char>) -> (Seq<char>, Seq<char>) {
    match text::cut_first(field, '=') {
        Some((name, value)) => (form_decoded(name), form_decoded(value)),
        None => (form_decoded(field), form_decoded(Seq::empty())),
    }
}

/// The pairs of a form: its fields are parted by `&`, and empty ones are skipped.
pub open spec fn form_pairs(query: Seq<char>) -> Seq<(Seq<char>, Seq<char>)> {
    text::fields(query, '&').filter(|f: Seq<char>| f.len() > 0).map_values(
        |f: Seq<char>| form_pair(f),
    )
}

/// `url::form_urlencoded::parse` on the bytes of `query`: the pairs of the form.
#[verifier::external_body]
pub(crate) fn parse_form(query: &str) -> (r: Vec<(String, String)>)
    ensures
        crate::text_map::pair_texts(r@) == form_pairs(query@),
{
    url::form_urlencoded::parse(query.as_bytes()).into_owned().collect()
}

/// The value of a hexadecimal digit of either case.
pub open spec fn hex_value(b: u8) -> Option<int> {
    if 0x30 <= b <= 0x39 {
        Some(b - 0x30)
    } else if 0x41 <= b <= 0x46 {
        Some(b - 0x37)
    } else if 0x61 <= b <= 0x66 {
        Some(b - 0x57)
    } else {
        None
    }
}

/// Bytes in which each `%` with two hexadecimal digits stands for the byte of
/// that value. A `%` without them stands for itself.
pub open spec fn unescaped(b: Seq<u8>) -> Seq<u8>
    decreases b.len(),
{
    if b.len() == 0 {
        b
    } else if b.len() >= 3 && b[0] == 0x25 && hex_value(b[1]) is Some && hex_value(b[2]) is Some {
        seq![(16 * hex_value(b[1])->0 + hex_value(b[2])->0) as u8] + unescaped(b.skip(3))
    } else {
        seq![b[0]] + unescaped(b.skip(1))
    }
}

/// A text without its percent escapes, bytes that are not UTF-8 replaced.
pub open spec fn percent_decoded(s: Seq<char>) -> Seq<char> {
    lossy_text(unescaped(vstd::utf8::encode_utf8(s)))
}

/// `percent_encoding::percent_decode_str` and `decode_utf8_lossy`: the text
/// without its percent escapes, read as `String::from_utf8_lossy` reads bytes.
#[verifier::external_body]
pub(crate) fn percent_decode(s: &str) -> (r: String)
    ensures
        r@ == percent_decoded(s@),
{
    percent_encoding::percent_decode_str(s).decode_utf8_lossy().into_owned()
}

/// An upper-case hexadecimal digit.
pub open spec fn hex_digit(n: int) -> char {
    if n < 10 {
        (0x30 + n) as char
    } else {
        (0x37 + n) as char
    }
}

/// Bytes as a text in which all but ASCII letters and digits are escaped.
pub open spec fn escaped(b: Seq<u8>) -> Seq<char>
    decreases b.len(),
{
    if b.len() == 0 {
        Seq::empty()
    } else {
        let first = b[0];
        let word = if (0x30 <= first <= 0x39) || (0x41 <= first <= 0x5a) || (0x61 <= first <= 0x7a) {
            seq![first as char]
        } else {
            seq!['%', hex_digit(first as int / 16), hex_digit(first as int % 16)]
        };
        word + escaped(b.skip(1))
    }
}

/// A text with percent escapes for all but ASCII letters and digits.
pub open spec fn percent_encoded(s: Seq<char>) -> Seq<char> {
    escaped(vstd::utf8::encode_utf8(s))
}

/// `percent_encoding::utf8_percent_encode` with `NON_ALPHANUMERIC`: the text
/// with percent escapes for all bytes but ASCII letters and digits.
#[verifier::external_body]
pub(crate) fn percent_encode(s: &str) -> (r: String)
    ensures
        r@ == percent_encoded(s@),
{
    percent_encoding::utf8_percent_encode(s, percent_encoding::NON_ALPHANUMERIC).to_string()
}

/// A hexadecimal digit of either case.
pub open spec fn hex_char(c: char) -> bool {
    ('0' <= c && c <= '9') || ('a' <= c && c <= 'f') || ('A' <= c && c <= 'F')
}

/// A UUID in five groups parted by hyphens.
pub open spec fn hyphenated_uuid(s: Seq<char>) -> bool {
    s.len() == 36 && forall|i: int|
        0 <= i < 36 ==> if i == 8 || i == 13 || i == 18 || i == 23 {
            #[trigger] s[i] == '-'
        } else {
            hex_char(s[i])
        }
}

/// A UUID: its digits alone, or in groups parted by hyphens, which may stand in
/// braces or behind `urn:uuid:`.
pub open spec fn is_uuid(s: Seq<char>) -> bool {
    ||| s.len() == 32 && forall|i: int| 0 <= i < 32 ==> hex_char(#[trigger] s[i])
    ||| hyphenated_uuid(s)
    ||| s.len() == 38 && s[0] == '{' && s[37] == '}' && hyphenated_uuid(s.subrange(1, 37))
    ||| s.len() == 45 && text::ascii_lower(s.take(9)) == "urn:uuid:"@ && hyphenated_uuid(s.skip(9))
}

/// `uuid::Uuid::parse_str`: whether it accepts the text.
#[verifier::external_body]
pub(crate) fn uuid_accepts(s: &str) -> (r: bool)
    ensures
        r == is_uuid(s@),
{
    uuid::Uuid::parse_str(s).is_ok()
}

pub open spec fn opt_bytes(o: Option<Vec<u8>>) -> Option<Seq<u8>> {
    match o {
        Some(v) => Some(v@),
        None => None,
    }
}

/// What `base64` decodes a text to with the engine `STANDARD`.
pub uninterp spec fn base64_standard(s: Seq<char>) -> Option<Seq<u8>>;

/// `base64::Engine::decode` of `STANDARD`: the named bytes, or nothing on an error.
#[verifier::external_body]
pub(crate) fn decode_standard(s: &str) -> (r: Option<Vec<u8>>)
    ensures
        opt_bytes(r) == base64_standard(s@),
{
    base64::Engine::decode(&base64::engine::general_purpose::STANDARD, s).ok()
}

/// What `base64` decodes a text to with the engine `STANDARD_NO_PAD`.
pub uninterp spec fn base64_standard_no_pad(s: Seq<char>) -> Option<Seq<u8>>;

/// `base64::Engine::decode` of `STANDARD_NO_PAD`: the named bytes, or nothing on an error.
#[verifier::external_body]
pub(crate) fn decode_standard_no_pad(s: &str) -> (r: Option<Vec<u8>>)
    ensures
        opt_bytes(r) == base64_standard_no_pad(s@),
{
    base64::Engine::decode(&base64::engine::general_purpose::STANDARD_NO_PAD, s).ok()
}

/// What `base64` decodes a text to with the engine `URL_SAFE`.
pub uninterp spec fn base64_url_safe(s: Seq<char>) -> Option<Seq<u8>>;

/// `base64::Engine::decode` of `URL_SAFE`: the named bytes, or nothing on an error.
#[verifier::external_body]
pub(crate) fn decode_url_safe(s: &str) -> (r: Option<Vec<u8>>)
    ensures
        opt_bytes(r) == base64_url_safe(s@),
{
    base64::Engine::decode(&base64::engine::general_purpose::URL_SAFE, s).ok()
}

/// What `base64` decodes a text to with the engine `URL_SAFE_NO_PAD`.
pub uninterp spec fn base64_url_safe_no_pad(s: Seq<char>) -> Option<Seq<u8>>;

/// `base64::Engine::decode` of `URL_SAFE_NO_PAD`: the named bytes, or nothing on an error.
#[verifier::external_body]
pub(crate) fn decode_url_safe_no_pad(s: &str) -> (r: Option<Vec<u8>>)
    ensures
        opt_bytes(r) == base64_url_safe_no_pad(s@),
{
    base64::Engine::decode(&base64::engine::general_purpose::URL_SAFE_NO_PAD, s).ok()
}

/// A lower-case hexadecimal digit.
pub open spec fn is_hex(c: char) -> bool {
    ('0' <= c <= '9') || ('a' <= c <= 'f')
}

/// The BLAKE3 hash of bytes in lower-case hexadecimal.
pub uninterp spec fn blake3_hex(bytes: Seq<u8>) -> Seq<char>;

/// `blake3::Hasher` over the bytes of `s`, and `to_hex` of the hash: the named
/// text, which is 64 lower-case hexadecimal digits.
#[verifier::external_body]
pub(crate) fn hash_hex(s: &str) -> (r: String)
    ensures
        r@ == blake3_hex(s.spec_bytes()),
        r@.len() == 64,
        forall|i: int| 0 <= i < r@.len() ==> is_hex(#[trigger] r@[i]),
{
    let mut hasher = blake3::Hasher::new();
    hasher.update(s.as_bytes());
    hasher.finalize().to_hex().to_string()
}

/// `std::str::from_utf8`: the text of valid UTF-8, nothing for other bytes.
#[verifier::external_body]
pub(crate) fn utf8_text(bytes: &[u8]) -> (r: Option<String>)
    ensures
        match r {
            Some(s) => vstd::utf8::valid_utf8(bytes@) && s@ == vstd::utf8::decode_utf8(bytes@),
            None => !vstd::utf8::valid_utf8(bytes@),
        },
{
    std::str::from_utf8(bytes).ok().map(str::to_owned)
}

/// The text that `String::from_utf8_lossy` gives.
pub uninterp spec fn lossy_text(bytes: Seq<u8>) -> Seq<char>;

/// `String::from_utf8_lossy`: the named text, which is the decoded text of valid UTF-8.
#[verifier::external_body]
pub(crate) fn utf8_lossy(bytes: &[u8]) -> (r: String)
    ensures
        r@ == lossy_text(bytes@),
        vstd::utf8::valid_utf8(bytes@) ==> r@ == vstd::utf8::decode_utf8(bytes@),
{
    String::from_utf8_lossy(bytes).into_owned()
}

/// The lower-case form of a text by the Unicode tables.
pub uninterp spec fn unicode_lower(s: Seq<char>) -> Seq<char>;

/// `str::to_lowercase`: the named text.
#[verifier::external_body]
pub(crate) fn to_lowercase(s: &str) -> (r: String)
    ensures
        r@ == unicode_lower(s@),
{
    s.to_lowercase()
}

/// The text that `str` shows as in debug output: quoted, with escapes.
pub uninterp spec fn quoted(s: Seq<char>) -> Seq<char>;

/// Debug formatting of a `str`: the named text.
#[verifier::external_body]
pub(crate) fn quote(s: &str) -> (r: String)
    ensures
        r@ == quoted(s@),
{
    format!("{s:?}")
}

/// `std::path::is_separator`: `/` parts a path on every system. Whether another
/// character does depends on the system, and nothing is said of it.
#[verifier::external_body]
pub(crate) fn separates(c: char) -> (r: bool)
    ensures
        c == '/' ==> r,
{
    std::path::is_separator(c)
}

} // verus!
