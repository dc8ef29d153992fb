//! Calls into other crates and into parts of the standard library, each behind a small function
//! with a stated contract.

use crate::json::{Json, JsonMember, JsonNode, JsonNodeView};
use crate::text;
use base64::Engine;
use sha2::Digest;
use vstd::prelude::*;
use vstd::utf8;

verus! {

/// The lower-case form that `str::to_lowercase` gives a string.
pub uninterp spec fn unicode_lower(s: Seq<char>) -> Seq<char>;

/// Calls `str::to_lowercase`, the Unicode lower-case mapping. What it does to letters outside
/// ASCII is left to its name; on ASCII text it is the ASCII mapping.
#[verifier::external_body]
pub(crate) fn to_lowercase(s: &str) -> (r: String)
    ensures
        r@ == unicode_lower(s@),
        utf8::is_ascii_chars(s@) ==> r@ == text::lower_of(s@),
{
    s.to_lowercase()
}

/// The text that `String::from_utf8_lossy` makes of some bytes.
pub uninterp spec fn lossy_text(bytes: Seq<u8>) -> Seq<char>;

/// Calls `String::from_utf8_lossy`: bytes that are UTF-8 are decoded, and what is not is replaced.
#[verifier::external_body]
pub(crate) fn from_utf8_lossy(bytes: &[u8]) -> (r: String)
    ensures
        r@ == lossy_text(bytes@),
        utf8::valid_utf8(bytes@) ==> r@ == utf8::decode_utf8(bytes@),
{
    String::from_utf8_lossy(bytes).to_string()
}

/// Whether the pattern is a regular expression of the `regex` crate that matches anywhere in the
/// text.
pub uninterp spec fn regex_finds(pattern: Seq<char>, haystack: Seq<char>) -> bool;

/// Calls `regex::Regex::new` and `Regex::is_match`. A pattern that does not compile matches
/// nothing.
#[verifier::external_body]
pub(crate) fn regex_is_match(pattern: &str, haystack: &str) -> (r: bool)
    ensures
        r == regex_finds(pattern@, haystack@),
{
    regex::Regex::new(pattern).map(|re| re.is_match(haystack)).unwrap_or(false)
}

/// The value of a hexadecimal digit.
pub open spec fn hex_value(b: u8) -> Option<int> {
    if 48 <= b <= 57 {
        Some(b - 48)
    } else if 65 <= b <= 70 {
        Some(b - 55)
    } else if 97 <= b <= 102 {
        Some(b - 87)
    } else {
        None
    }
}

/// The bytes with each percent sign that two hexadecimal digits follow replaced, together with
/// them, by the byte that the digits write.
pub open spec fn unescaped(b: Seq<u8>) -> Seq<u8>
    decreases b.len(),
{
    if b.len() == 0 {
        Seq::empty()
    } else if b.len() >= 3 && b[0] == 37 && hex_value(b[1]) is Some && hex_value(b[2]) is Some {
        seq![(16 * hex_value(b[1])->0 + hex_value(b[2])->0) as u8] + unescaped(b.skip(3))
    } else {
        seq![b[0]] + unescaped(b.skip(1))
    }
}

/// The text with its percent escapes replaced, where the bytes that come out are UTF-8.
pub open spec fn percent_decoded(s: Seq<char>) -> Option<Seq<char>> {
    let bytes = unescaped(utf8::encode_utf8(s));
    if utf8::valid_utf8(bytes) {
        Some(utf8::decode_utf8(bytes))
    } else {
        None
    }
}

/// Calls `urlencoding::decode`, which replaces percent escapes and leaves everything else as it
/// is.
#[verifier::external_body]
pub(crate) fn percent_decode(s: &str) -> (r: Option<String>)
    ensures
        r.deep_view() == percent_decoded(s@),
{
    urlencoding::decode(s).ok().map(|decoded| decoded.into_owned())
}

proof fn lemma_scalar_bytes(c: u32)
    by (bit_vector)
    ensures
        utf8::has_width_1_encoding(c) && c != 37 ==> utf8::leading_byte_width_1(c) != 37,
        utf8::leading_byte_width_2(c) != 37,
        utf8::leading_byte_width_3(c) != 37,
        utf8::leading_byte_width_4(c) != 37,
        utf8::last_continuation_byte(c) != 37,
        utf8::second_last_continuation_byte(c) != 37,
        utf8::third_last_continuation_byte(c) != 37,
{
}

proof fn lemma_no_percent_byte(s: Seq<char>)
    requires
        !s.contains('%'),
    ensures
        !utf8::encode_utf8(s).contains(37u8),
    decreases s.len(),
{
    if s.len() > 0 {
        let rest = s.drop_first();
        assert(!rest.contains('%')) by {
            assert forall|i: int| 0 <= i < rest.len() implies rest[i] != '%' by {
                assert(s[i + 1] == rest[i]);
                assert(s.contains(s[i + 1]));
            }
        }
        lemma_no_percent_byte(rest);
        assert(s.contains(s[0]));
        let c: char = s[0];
        utf8::char_is_scalar(c);
        utf8::char_u32_cast(c, c as u32);
        assert(c as u32 != 37u32);
        lemma_scalar_bytes(c as u32);
        let first = utf8::encode_scalar(c as u32);
        let more = utf8::encode_utf8(rest);
        let all = utf8::encode_utf8(s);
        assert(all == first + more);
        assert forall|i: int| 0 <= i < all.len() implies all[i] != 37u8 by {
            if i >= first.len() {
                assert(all[i] == more[i - first.len()]);
                assert(more.contains(more[i - first.len()]));
            } else {
                assert(all[i] == first[i]);
            }
        }
    }
}

proof fn lemma_nothing_escaped(b: Seq<u8>)
    requires
        !b.contains(37u8),
    ensures
        unescaped(b) == b,
    decreases b.len(),
{
    if b.len() > 0 {
        assert(b.contains(b[0]));
        let rest = b.skip(1);
        assert forall|i: int| 0 <= i < rest.len() implies rest[i] != 37u8 by {
            assert(b[i + 1] == rest[i]);
            assert(b.contains(b[i + 1]));
        }
        lemma_nothing_escaped(rest);
        assert(unescaped(b) =~= b);
    } else {
        assert(unescaped(b) =~= b);
    }
}

/// Text without a percent sign is its own decoding.
pub proof fn lemma_plain_text_decodes_to_itself(s: Seq<char>)
    requires
        !s.contains('%'),
    ensures
        percent_decoded(s) == Some(s),
{
    lemma_no_percent_byte(s);
    lemma_nothing_escaped(utf8::encode_utf8(s));
    utf8::encode_utf8_valid_utf8(s);
    utf8::encode_utf8_decode_utf8(s);
}

/// The scheme and the host of a URL.
#[derive(Debug)]
pub struct UrlParts {
    pub scheme: String,
    pub host: Option<String>,
}

/// The scheme and the host that the `url` crate reads from a text, where it is a URL.
pub uninterp spec fn url_parts(s: Seq<char>) -> Option<(Seq<char>, Option<Seq<char>>)>;

/// Calls `url::Url::parse`, `Url::scheme` and `Url::host_str`.
#[verifier::external_body]
pub(crate) fn parse_url(s: &str) -> (r: Option<UrlParts>)
    ensures
        (match r {
            Some(u) => Some((u.scheme@, u.host.deep_view())),
            None => None,
        }) == url_parts(s@),
{
    url::Url::parse(s).ok().map(
        |u| UrlParts { scheme: u.scheme().to_string(), host: u.host_str().map(|h| h.to_string()) },
    )
}

/// The six bits that a character of the URL-safe base64 alphabet stands for.
pub open spec fn sextet(b: u8) -> Option<int> {
    if 65 <= b <= 90 {
        Some(b - 65)
    } else if 97 <= b <= 122 {
        Some(b - 71)
    } else if 48 <= b <= 57 {
        Some(b + 4)
    } else if b == 45 {
        Some(62)
    } else if b == 95 {
        Some(63)
    } else {
        None
    }
}

/// What unpadded base64 decodes to: three bytes for four characters. Two or three characters at the
/// end give one or two bytes, and the bits that are left over are zero.
pub open spec fn base64url_bytes(b: Seq<u8>) -> Option<Seq<u8>>
    decreases b.len(),
{
    if b.len() == 0 {
        Some(Seq::empty())
    } else if b.len() == 1 || sextet(b[0]) is None || sextet(b[1]) is None {
        None
    } else {
        let x = sextet(b[0])->0 * 4 + sextet(b[1])->0 / 16;
        let y = sextet(b[1])->0 % 16;
        if b.len() == 2 {
            if y == 0 {
                Some(seq![x as u8])
            } else {
                None
            }
        } else if sextet(b[2]) is None {
            None
        } else {
            let z = sextet(b[2])->0;
            if b.len() == 3 {
                if z % 4 == 0 {
                    Some(seq![x as u8, (y * 16 + z / 4) as u8])
                } else {
                    None
                }
            } else {
                match (sextet(b[3]), base64url_bytes(b.skip(4))) {
                    (Some(w), Some(rest)) => Some(
                        seq![x as u8, (y * 16 + z / 4) as u8, (z % 4 * 64 + w) as u8] + rest,
                    ),
                    _ => None,
                }
            }
        }
    }
}

/// What a text in unpadded base64 with the URL-safe alphabet decodes to.
pub open spec fn base64url_decoded(s: Seq<char>) -> Option<Seq<u8>> {
    base64url_bytes(utf8::encode_utf8(s))
}

/// Calls `decode` of base64's `URL_SAFE_NO_PAD` engine on the bytes of the text.
#[verifier::external_body]
pub(crate) fn base64url_decode(s: &str) -> (r: Option<Vec<u8>>)
    ensures
        r.deep_view() == base64url_decoded(s@),
{
    base64::engine::general_purpose::URL_SAFE_NO_PAD.decode(s.as_bytes()).ok()
}

/// The SHA-256 digest of some bytes.
pub uninterp spec fn sha256_of(bytes: Seq<u8>) -> Seq<u8>;

/// Calls `sha2::Sha256::digest`, whose result has 32 bytes.
#[verifier::external_body]
pub(crate) fn sha256(bytes: &[u8]) -> (r: Vec<u8>)
    ensures
        r@ == sha256_of(bytes@),
        r@.len() == 32,
{
    sha2::Sha256::digest(bytes).to_vec()
}

/// The hexadecimal digit of `d`, for `d` below sixteen.
pub open spec fn hex_digit(d: int) -> char {
    if d < 10 {
        (d + 48) as char
    } else {
        (d + 87) as char
    }
}

/// Two lower-case hexadecimal digits for each byte.
pub open spec fn hex_of(bytes: Seq<u8>) -> Seq<char> {
    Seq::new(
        2 * bytes.len(),
        |i: int|
            if i % 2 == 0 {
                hex_digit(bytes[i / 2] as int / 16)
            } else {
                hex_digit(bytes[i / 2] as int % 16)
            },
    )
}

/// Calls `hex::encode`.
#[verifier::external_body]
pub(crate) fn hex_encode(bytes: &[u8]) -> (r: String)
    ensures
        r@ == hex_of(bytes@),
{
    hex::encode(bytes)
}

/// A JSON value of the `serde_json` crate.
#[verifier::external_type_specification]
#[verifier::external_body]
pub struct ExSerdeValue(serde_json::Value);

/// The value that `serde_json` reads from some bytes, where they are one JSON document. Object
/// members come in the order of their names, and each name once.
pub uninterp spec fn json_parsed(bytes: Seq<u8>) -> Option<JsonNodeView>;

/// Calls `serde_json::from_slice` for a `serde_json::Value` and copies it.
#[verifier::external_body]
pub(crate) fn parse_json(bytes: &[u8]) -> (r: Option<JsonNode>)
    ensures
        r.deep_view() == json_parsed(bytes@),
{
    serde_json::from_slice::<serde_json::Value>(bytes).ok().map(|value| node_of(&value))
}

/// Copies a `serde_json::Value`, each variant to the one of the same meaning, with the text that
/// its `to_string` gives.
#[verifier::external_body]
fn node_of(value: &serde_json::Value) -> JsonNode {
    let shape = match value {
        serde_json::Value::Null => Json::Null,
        serde_json::Value::Bool(b) => Json::Bool(*b),
        serde_json::Value::Number(_) => Json::Number,
        serde_json::Value::String(s) => Json::Text(s.clone()),
        serde_json::Value::Array(items) => Json::Array(items.iter().map(node_of).collect()),
        serde_json::Value::Object(members) => Json::Object(
            members.iter().map(|(k, v)| JsonMember { name: k.clone(), node: node_of(v) }).collect(),
        ),
    };
    JsonNode { rendered: value.to_string(), value: shape }
}

/// A character as it stands in a JSON string literal.
pub open spec fn json_escaped(c: char) -> Seq<char> {
    if c == '"' || c == '\\' {
        seq!['\\', c]
    } else if c as int == 8 {
        seq!['\\', 'b']
    } else if c as int == 9 {
        seq!['\\', 't']
    } else if c as int == 10 {
        seq!['\\', 'n']
    } else if c as int == 12 {
        seq!['\\', 'f']
    } else if c as int == 13 {
        seq!['\\', 'r']
    } else if (c as int) < 32 {
        seq!['\\', 'u', '0', '0', hex_digit(c as int / 16), hex_digit(c as int % 16)]
    } else {
        seq![c]
    }
}

/// The characters of a text as they stand in a JSON string literal.
pub open spec fn json_escaped_text(s: Seq<char>) -> Seq<char>
    decreases s.len(),
{
    if s.len() == 0 {
        Seq::empty()
    } else {
        json_escaped_text(s.drop_last()) + json_escaped(s.last())
    }
}

/// The JSON string literal for a text.
pub open spec fn json_quoted(s: Seq<char>) -> Seq<char> {
    seq!['"'] + json_escaped_text(s) + seq!['"']
}

/// Calls `serde_json::to_string` on a text, which writes a JSON string literal.
#[verifier::external_body]
pub(crate) fn json_quote(s: &str) -> (r: String)
    ensures
        r@ == json_quoted(s@),
{
    serde_json::to_string(s).unwrap_or_default()
}

/// The point in time that a text writes as RFC 3339 does: its text in UTC, its whole seconds since
/// the Unix epoch and the nanoseconds beyond them; else what the `chrono` crate says is wrong.
pub uninterp spec fn rfc3339_read(s: Seq<char>) -> Result<(Seq<char>, i64, u32), Seq<char>>;

/// Calls `chrono::DateTime::parse_from_rfc3339` and `with_timezone`, then `to_rfc3339`, `timestamp`
/// and `timestamp_subsec_nanos` on what was read.
#[verifier::external_body]
pub(crate) fn read_rfc3339(s: &str) -> (r: Result<(String, i64, u32), String>)
    ensures
        (match r {
            Ok(t) => Ok((t.0@, t.1, t.2)),
            Err(e) => Err(e@),
        }) == rfc3339_read(s@),
{
    chrono::DateTime::parse_from_rfc3339(s).map(|t| t.with_timezone(&chrono::Utc)).map(
        |t| (t.to_rfc3339(), t.timestamp(), t.timestamp_subsec_nanos()),
    ).map_err(|e| e.to_string())
}

/// A status of an HTTP answer with its usual reason, as the `http` crate writes it.
pub uninterp spec fn status_with_reason(status: u16) -> Option<Seq<char>>;

/// Calls `reqwest::StatusCode::from_u16` and `to_string`. A status has three digits, and its text
/// starts with them; the reasons are a table of the `http` crate.
#[verifier::external_body]
pub(crate) fn status_line(status: u16) -> (r: Option<String>)
    ensures
        r.deep_view() == status_with_reason(status),
        r is Some <==> 100 <= status <= 999,
        r is Some ==> text::has_prefix(r->0@, text::decimal_of(status as nat) + " "@),
{
    reqwest::StatusCode::from_u16(status).ok().map(|s| s.to_string())
}

/// A point in time, in seconds since the Unix epoch, as fourteen or more digits: year, month, day,
/// hour, minute and second in UTC.
pub uninterp spec fn compact_utc_time(secs: i64) -> Option<Seq<char>>;

/// Calls `chrono::DateTime::from_timestamp` and `format` with `%Y%m%d%H%M%S`. There is no text for
/// a time that chrono cannot hold.
#[verifier::external_body]
pub(crate) fn compact_utc(secs: i64) -> (r: Option<String>)
    ensures
        r.deep_view() == compact_utc_time(secs),
{
    chrono::DateTime::from_timestamp(secs, 0).map(|t| t.format("%Y%m%d%H%M%S").to_string())
}

} // verus!
