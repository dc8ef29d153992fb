//! Bringing requests into the form in which they are inspected. The request itself is not changed.

use crate::headers;
use crate::headers::Headers;
use crate::identity;
use crate::outside;
use crate::text;
use crate::types::{ParsedBodyField, ParsedBodyFieldView, RequestContext};
use vstd::prelude::*;

verus! {

#[derive(Debug, Clone, Copy)]
pub struct NormalizationLimits {
    pub max_bytes: usize,
    pub max_decode_passes: usize,
    pub max_query_params: usize,
}

/// A request in the form in which it is inspected.
#[derive(Debug)]
pub struct NormalizedRequest {
    pub method: String,
    pub path: String,
    pub query_pairs: Vec<(String, String)>,
    pub content_type: Option<String>,
    pub body_variants: Vec<String>,
    pub inspection_values: Vec<(String, String)>,
    pub query_param_count: usize,
}

#[verifier::ext_equal]
pub struct NormalizedRequestView {
    pub method: Seq<char>,
    pub path: Seq<char>,
    pub query_pairs: Seq<(Seq<char>, Seq<char>)>,
    pub content_type: Option<Seq<char>>,
    pub body_variants: Seq<Seq<char>>,
    pub inspection_values: Seq<(Seq<char>, Seq<char>)>,
    pub query_param_count: usize,
}

impl DeepView for NormalizedRequest {
    type V = NormalizedRequestView;

    open spec fn deep_view(&self) -> NormalizedRequestView {
        NormalizedRequestView {
            method: self.method@,
            path: self.path@,
            query_pairs: self.query_pairs.deep_view(),
            content_type: self.content_type.deep_view(),
            body_variants: self.body_variants.deep_view(),
            inspection_values: self.inspection_values.deep_view(),
            query_param_count: self.query_param_count,
        }
    }
}

pub fn bounded(input: &str, max_bytes: usize) -> (r: String)
    ensures
        r@ == text::bounded_of(input@, max_bytes as nat),
{
    text::bounded(input, max_bytes)
}

/// What a further decoding makes of a text: nothing where it cannot be decoded or stays the same.
pub open spec fn next_form(
    current: Seq<char>,
    decoded: Option<Seq<char>>,
    max_bytes: nat,
) -> Option<Seq<char>> {
    match decoded {
        Some(d) => if text::bounded_of(d, max_bytes) == current {
            None
        } else {
            Some(text::bounded_of(d, max_bytes))
        },
        None => None,
    }
}

/// The next form of a text, from what decoding it gave.
pub fn next_pass(current: &str, decoded: Option<String>, max_bytes: usize) -> (r: Option<String>)
    ensures
        r.deep_view() == next_form(current@, decoded.deep_view(), max_bytes as nat),
{
    match decoded {
        Some(d) => {
            let b = bounded(d.as_str(), max_bytes);
            if text::same(b.as_str(), current) {
                None
            } else {
                Some(b)
            }
        },
        None => None,
    }
}

/// A text after up to `passes` decodings, each held to `max_bytes`.
pub open spec fn decoded_form(current: Seq<char>, passes: nat, max_bytes: nat) -> Seq<char>
    decreases passes,
{
    if passes == 0 {
        current
    } else {
        match next_form(current, outside::percent_decoded(current), max_bytes) {
            Some(next) => decoded_form(next, (passes - 1) as nat, max_bytes),
            None => current,
        }
    }
}

/// At most four decodings are made.
pub open spec fn pass_count(limits: NormalizationLimits) -> nat {
    if limits.max_decode_passes < 4 {
        limits.max_decode_passes as nat
    } else {
        4
    }
}

/// The decoded form of a text, held to the limits.
pub open spec fn decoded_of(input: Seq<char>, limits: NormalizationLimits) -> Seq<char> {
    decoded_form(
        text::bounded_of(input, limits.max_bytes as nat),
        pass_count(limits),
        limits.max_bytes as nat,
    )
}

/// However often a text was encoded, its decoded form has at most the allowed number of bytes.
pub proof fn law_decoded_bounded(input: Seq<char>, limits: NormalizationLimits)
    ensures
        text::byte_len_of(decoded_of(input, limits)) <= limits.max_bytes,
{
    text::lemma_bounded_fits(input, limits.max_bytes as nat);
    lemma_form_bounded(
        text::bounded_of(input, limits.max_bytes as nat),
        pass_count(limits),
        limits.max_bytes as nat,
    );
}

proof fn lemma_form_bounded(current: Seq<char>, passes: nat, max_bytes: nat)
    requires
        text::byte_len_of(current) <= max_bytes,
    ensures
        text::byte_len_of(decoded_form(current, passes, max_bytes)) <= max_bytes,
    decreases passes,
{
    if passes > 0 {
        match outside::percent_decoded(current) {
            Some(d) => {
                text::lemma_bounded_fits(d, max_bytes);
                if text::bounded_of(d, max_bytes) != current {
                    lemma_form_bounded(
                        text::bounded_of(d, max_bytes),
                        (passes - 1) as nat,
                        max_bytes,
                    );
                }
            },
            None => {},
        }
    }
}

proof fn lemma_bounded_keeps_out(s: Seq<char>, max: nat, c: char)
    requires
        !s.contains(c),
    ensures
        !text::bounded_of(s, max).contains(c),
{
    text::lemma_bounded_fits(s, max);
    let b = text::bounded_of(s, max);
    assert forall|i: int| 0 <= i < b.len() implies b[i] != c by {
        assert(s.take(b.len() as int)[i] == s[i]);
    }
}

/// Decodes a text until it stays the same, at most as often as the limits allow. A text without a
/// percent sign is only cut to the allowed length.
pub fn bounded_decode(input: &str, limits: &NormalizationLimits) -> (r: String)
    ensures
        r@ == decoded_of(input@, *limits),
        text::byte_len_of(r@) <= limits.max_bytes,
        !input@.contains('%') ==> r@ == text::bounded_of(input@, limits.max_bytes as nat),
{
    let max: usize = limits.max_bytes;
    let mut left: usize = if limits.max_decode_passes < 4 {
        limits.max_decode_passes
    } else {
        4
    };
    let mut current = bounded(input, max);
    proof {
        law_decoded_bounded(input@, *limits);
        text::lemma_bounded_fits(input@, max as nat);
        if !input@.contains('%') {
            lemma_bounded_keeps_out(input@, max as nat, '%');
        }
    }
    while left > 0
        invariant
            max == limits.max_bytes,
            decoded_of(input@, *limits) == decoded_form(current@, left as nat, max as nat),
            text::byte_len_of(decoded_of(input@, *limits)) <= limits.max_bytes,
            text::byte_len_of(current@) <= max,
            !input@.contains('%') ==> {
                &&& current@ == text::bounded_of(input@, max as nat)
                &&& !current@.contains('%')
            },
        decreases left,
    {
        proof {
            if !current@.contains('%') {
                outside::lemma_plain_text_decodes_to_itself(current@);
            }
        }
        let decoded = outside::percent_decode(current.as_str());
        match next_pass(current.as_str(), decoded, max) {
            Some(next) => {
                proof {
                    text::lemma_bounded_fits(current@, max as nat);
                    text::lemma_bounded_fits(decoded.deep_view()->0, max as nat);
                }
                current = next;
                left = left - 1;
            },
            None => {
                return current;
            },
        }
    }
    current
}

/// The words that mark the name of a value which must not be shown.
pub open spec fn sensitive_words() -> Seq<Seq<char>> {
    seq![
        "password"@,
        "passwd"@,
        "token"@,
        "secret"@,
        "authorization"@,
        "api_key"@,
        "apikey"@,
        "session"@,
        "cookie"@,
        "card"@,
    ]
}

/// Whether a name, in lower case and without characters other than letters, digits and
/// underscores, holds one of the sensitive words.
pub open spec fn sensitive(key: Seq<char>) -> bool {
    let name = text::lower_of(text::cleaned_of(key, false));
    exists|i: int|
        0 <= i < sensitive_words().len() && text::has_part(name, #[trigger] sensitive_words()[i])
}

pub fn is_sensitive_key(key: &str) -> (r: bool)
    ensures
        r == sensitive(key@),
{
    let cleaned = text::clean_name(key, false);
    let name = text::to_ascii_lowercase(cleaned.as_str());
    let n = name.as_str();
    let ghost words = sensitive_words();
    proof {
        assert(words[0] == "password"@);
        assert(words[1] == "passwd"@);
        assert(words[2] == "token"@);
        assert(words[3] == "secret"@);
        assert(words[4] == "authorization"@);
        assert(words[5] == "api_key"@);
        assert(words[6] == "apikey"@);
        assert(words[7] == "session"@);
        assert(words[8] == "cookie"@);
        assert(words[9] == "card"@);
    }
    text::contains(n, "password") || text::contains(n, "passwd") || text::contains(n, "token")
        || text::contains(n, "secret") || text::contains(n, "authorization") || text::contains(
        n,
        "api_key",
    ) || text::contains(n, "apikey") || text::contains(n, "session") || text::contains(n, "cookie")
        || text::contains(n, "card")
}

/// A name around a sensitive name is sensitive.
pub proof fn law_sensitive_around(a: Seq<char>, key: Seq<char>, b: Seq<char>)
    requires
        sensitive(key),
    ensures
        sensitive(a + key + b),
{
    let before = text::cleaned_of(a, false);
    let own = text::cleaned_of(key, false);
    let after = text::cleaned_of(b, false);
    text::lemma_cleaned_append(a, key, false);
    text::lemma_cleaned_append(a + key, b, false);
    let name = text::lower_of(own);
    let i = choose|i: int|
        0 <= i < sensitive_words().len() && text::has_part(name, #[trigger] sensitive_words()[i]);
    text::lemma_part_around(
        text::lower_of(before),
        name,
        text::lower_of(after),
        sensitive_words()[i],
    );
    assert(text::lower_of(before + own + after) =~= text::lower_of(before) + name + text::lower_of(
        after,
    ));
}

/// Whether a name is sensitive does not depend on the case of its ASCII letters.
pub proof fn law_sensitive_ignores_case(a: Seq<char>, b: Seq<char>)
    requires
        text::lower_of(a) == text::lower_of(b),
    ensures
        sensitive(a) == sensitive(b),
{
    text::lemma_cleaned_lower(a, false);
    text::lemma_cleaned_lower(b, false);
}

/// Characters other than ASCII letters, digits and underscores, wherever they stand in a name, do
/// not change whether it is sensitive.
pub proof fn law_sensitive_ignores_punctuation(a: Seq<char>, between: Seq<char>, b: Seq<char>)
    requires
        forall|i: int|
            0 <= i < between.len() ==> !text::is_alphanumeric_char(#[trigger] between[i])
                && between[i] != '_',
    ensures
        sensitive(a + between + b) == sensitive(a + b),
{
    text::lemma_cleaned_append(a, between, false);
    text::lemma_cleaned_append(a + between, b, false);
    text::lemma_cleaned_append(a, b, false);
    lemma_cleaned_away(between);
    assert(text::cleaned_of(a, false) + Seq::<char>::empty() =~= text::cleaned_of(a, false));
}

proof fn lemma_cleaned_away(s: Seq<char>)
    requires
        forall|i: int|
            0 <= i < s.len() ==> !text::is_alphanumeric_char(#[trigger] s[i]) && s[i] != '_',
    ensures
        text::cleaned_of(s, false) == Seq::<char>::empty(),
    decreases s.len(),
{
    if s.len() > 0 {
        let front = s.drop_last();
        assert forall|i: int| 0 <= i < front.len() implies !text::is_alphanumeric_char(
            #[trigger] front[i],
        ) && front[i] != '_' by {
            assert(front[i] == s[i]);
        }
        lemma_cleaned_away(front);
        assert(!text::is_kept_char(s[s.len() - 1], false));
    }
}

/// What stands for a value that must not be shown.
pub open spec fn redacted() -> Seq<char> {
    "[redacted]"@
}

/// A parameter with its value replaced where its name is sensitive.
pub open spec fn redacted_pair(pair: Seq<char>) -> Seq<char> {
    let (key, value) = text::split_once_of(pair, '=');
    match value {
        Some(v) => key + "="@ + if sensitive(text::lower_of(key)) {
            redacted()
        } else {
            v
        },
        None => key,
    }
}

/// The parameters one after another; no separator stands before the first that is not empty.
pub open spec fn redacted_parts(parts: Seq<Seq<char>>) -> Seq<char>
    decreases parts.len(),
{
    if parts.len() == 0 {
        Seq::empty()
    } else {
        let before = redacted_parts(parts.drop_last());
        let head = if before.len() > 0 {
            before.push('&')
        } else {
            before
        };
        head + redacted_pair(parts.last())
    }
}

/// A text of parameters with the sensitive values replaced.
pub open spec fn redacted_of(value: Seq<char>) -> Seq<char> {
    redacted_parts(text::split_of(value, '&'))
}

/// A key and a value with a separator between them are told apart at that separator.
proof fn lemma_pair_once(key: Seq<char>, value: Seq<char>)
    requires
        !key.contains('='),
    ensures
        text::split_once_of(key + "="@ + value, '=') == (key, Some(value)),
{
    reveal_strlit("=");
    let pair = key + "="@ + value;
    lemma_first_index(key, '=', value);
    assert(key + seq!['='] + value =~= pair);
    assert(pair.take(key.len() as int) =~= key);
    assert(pair.skip(key.len() as int + 1) =~= value);
}

proof fn lemma_first_index(key: Seq<char>, c: char, rest: Seq<char>)
    requires
        !key.contains(c),
    ensures
        text::first_index(key + seq![c] + rest, c) == key.len(),
    decreases key.len(),
{
    let s = key + seq![c] + rest;
    if key.len() > 0 {
        assert(s[0] == key[0]);
        assert(s.drop_first() =~= key.drop_first() + seq![c] + rest);
        assert(!key.drop_first().contains(c)) by {
            assert forall|i: int| 0 <= i < key.drop_first().len() implies key.drop_first()[i]
                != c by {
                assert(key.drop_first()[i] == key[i + 1]);
            }
        }
        lemma_first_index(key.drop_first(), c, rest);
    } else {
        assert(s[0] == c);
    }
}

proof fn lemma_first_index_bounds(s: Seq<char>, c: char)
    ensures
        0 <= text::first_index(s, c) <= s.len(),
        !s.take(text::first_index(s, c)).contains(c),
        text::first_index(s, c) < s.len() ==> s[text::first_index(s, c)] == c,
    decreases s.len(),
{
    if s.len() > 0 && s[0] != c {
        lemma_first_index_bounds(s.drop_first(), c);
        let i = text::first_index(s.drop_first(), c);
        let head = s.take(i + 1);
        assert forall|j: int| 0 <= j < head.len() implies head[j] != c by {
            if j > 0 {
                assert(s.drop_first().take(i)[j - 1] == s[j]);
            }
        }
    }
}

/// Redacting a parameter once more changes nothing, adds no separator and leaves it empty only
/// where it was.
proof fn lemma_pair_fixed(pair: Seq<char>)
    requires
        !pair.contains('&'),
    ensures
        redacted_pair(redacted_pair(pair)) == redacted_pair(pair),
        !redacted_pair(pair).contains('&'),
        redacted_pair(pair).len() == 0 <==> pair.len() == 0,
{
    reveal_strlit("=");
    reveal_strlit("[redacted]");
    lemma_first_index_bounds(pair, '=');
    let (key, value) = text::split_once_of(pair, '=');
    match value {
        Some(v) => {
            let shown = if sensitive(text::lower_of(key)) {
                redacted()
            } else {
                v
            };
            let r = key + "="@ + shown;
            lemma_pair_once(key, shown);
            assert forall|i: int| 0 <= i < r.len() implies r[i] != '&' by {
                if i < key.len() {
                    assert(r[i] == pair[i]);
                } else if i > key.len() {
                    assert(r[i] == shown[i - key.len() - 1]);
                    if !sensitive(text::lower_of(key)) {
                        assert(r[i] == pair[i]);
                    }
                }
            }
        },
        None => {},
    }
}

/// The parameters redacted, without those in front that are empty.
spec fn kept_parts(parts: Seq<Seq<char>>) -> Seq<Seq<char>>
    decreases parts.len(),
{
    if parts.len() == 0 {
        Seq::empty()
    } else {
        let before = kept_parts(parts.drop_last());
        if before.len() == 0 && parts.last().len() == 0 {
            before
        } else {
            before.push(redacted_pair(parts.last()))
        }
    }
}

/// The redacted text is the parameters that are kept, with separators between them; they hold no
/// separator, the first is not empty, and redacting them changes nothing.
proof fn lemma_redacted_kept(parts: Seq<Seq<char>>)
    requires
        forall|i: int| 0 <= i < parts.len() ==> !(#[trigger] parts[i]).contains('&'),
    ensures
        redacted_parts(parts) == text::join_of(kept_parts(parts), seq!['&']),
        forall|i: int|
            0 <= i < kept_parts(parts).len() ==> !(#[trigger] kept_parts(parts)[i]).contains('&')
                && redacted_pair(kept_parts(parts)[i]) == kept_parts(parts)[i],
        kept_parts(parts).len() > 0 ==> kept_parts(parts)[0].len() > 0 && redacted_parts(
            parts,
        ).len() > 0,
    decreases parts.len(),
{
    if parts.len() > 0 {
        let front = parts.drop_last();
        assert forall|i: int| 0 <= i < front.len() implies !(#[trigger] front[i]).contains('&') by {
            assert(front[i] == parts[i]);
        }
        lemma_redacted_kept(front);
        assert(!parts[parts.len() - 1].contains('&'));
        lemma_pair_fixed(parts.last());
        let before = kept_parts(front);
        let pair = redacted_pair(parts.last());
        if before.len() == 0 && parts.last().len() == 0 {
            assert(redacted_parts(parts) =~= Seq::empty());
        } else {
            assert(before.push(pair).drop_last() =~= before);
            if before.len() == 0 {
                assert(redacted_parts(parts) =~= pair);
            } else {
                assert(redacted_parts(parts) =~= redacted_parts(front) + seq!['&'] + pair);
            }
        }
    }
}

/// Parameters that redaction does not change and that do not start with an empty one stay as they
/// are.
proof fn lemma_kept_fixed(parts: Seq<Seq<char>>)
    requires
        parts.len() > 0 ==> parts[0].len() > 0,
        forall|i: int| 0 <= i < parts.len() ==> redacted_pair(#[trigger] parts[i]) == parts[i],
    ensures
        kept_parts(parts) == parts,
    decreases parts.len(),
{
    if parts.len() > 0 {
        let front = parts.drop_last();
        assert forall|i: int| 0 <= i < front.len() implies redacted_pair(#[trigger] front[i])
            == front[i] by {
            assert(front[i] == parts[i]);
        }
        lemma_kept_fixed(front);
        assert(redacted_pair(parts[parts.len() - 1]) == parts.last());
        assert(front.push(parts.last()) =~= parts);
    }
}

/// Redacting a text a second time changes nothing.
pub proof fn law_redaction_idempotent(value: Seq<char>)
    ensures
        redacted_of(redacted_of(value)) == redacted_of(value),
{
    let parts = text::split_of(value, '&');
    text::lemma_split_parts(value, '&');
    lemma_redacted_kept(parts);
    let kept = kept_parts(parts);
    if kept.len() == 0 {
        let e = Seq::<char>::empty();
        assert(redacted_of(value) =~= e);
        assert(text::split_of(e, '&') =~= seq![e]);
        assert(!e.contains('&'));
        lemma_redacted_kept(seq![e]);
        assert(seq![e].drop_last() =~= Seq::empty());
        assert(kept_parts(seq![e].drop_last()).len() == 0);
        assert(kept_parts(seq![e]).len() == 0);
    } else {
        text::law_split_undoes_join(kept, '&');
        lemma_redacted_kept(kept);
        lemma_kept_fixed(kept);
    }
}

/// What a sensitive parameter holds leaves no trace: whatever stands in its place, at the start of
/// the text or behind other parameters, the redacted text is the same.
pub proof fn law_redaction_hides_value(
    before: Seq<char>,
    key: Seq<char>,
    value: Seq<char>,
    other: Seq<char>,
    after: Seq<char>,
)
    requires
        before.len() == 0 || before.last() == '&',
        after.len() == 0 || after[0] == '&',
        sensitive(key),
        !key.contains('&'),
        !key.contains('='),
        !value.contains('&'),
        !other.contains('&'),
    ensures
        redacted_of(before + key + "="@ + value + after) == redacted_of(
            before + key + "="@ + other + after,
        ),
{
    let a = key + "="@ + value;
    let b = key + "="@ + other;
    lemma_sensitive_pair(key, value);
    lemma_sensitive_pair(key, other);
    assert(before + key + "="@ + value + after =~= before + a + after);
    assert(before + key + "="@ + other + after =~= before + b + after);
    let head = text::split_of(before.drop_last(), '&');
    let tail = text::split_of(after.drop_first(), '&');
    lemma_parts_around(before, a, after);
    lemma_parts_around(before, b, after);
    let front = if before.len() == 0 {
        Seq::empty()
    } else {
        head
    };
    let back = if after.len() == 0 {
        Seq::empty()
    } else {
        tail
    };
    lemma_same_redaction(front, a, b, back);
}

proof fn lemma_sensitive_pair(key: Seq<char>, value: Seq<char>)
    requires
        sensitive(key),
        !key.contains('&'),
        !key.contains('='),
        !value.contains('&'),
    ensures
        redacted_pair(key + "="@ + value) == key + "="@ + redacted(),
        !(key + "="@ + value).contains('&'),
{
    reveal_strlit("=");
    lemma_pair_once(key, value);
    lemma_lower_twice(key);
    law_sensitive_ignores_case(key, text::lower_of(key));
    let pair = key + "="@ + value;
    assert forall|i: int| 0 <= i < pair.len() implies pair[i] != '&' by {
        if i < key.len() {
            assert(pair[i] == key[i]);
        } else if i > key.len() {
            assert(pair[i] == value[i - key.len() - 1]);
        }
    }
}

proof fn lemma_lower_twice(s: Seq<char>)
    ensures
        text::lower_of(text::lower_of(s)) == text::lower_of(s),
{
    assert forall|i: int| 0 <= i < s.len() implies text::lower_char_of(
        #[trigger] text::lower_of(s)[i],
    ) == text::lower_of(s)[i] by {
        let c = s[i];
        if 'A' <= c && c <= 'Z' {
            assert(97 <= text::lower_char_of(c) as u32 <= 122);
        }
    }
    assert(text::lower_of(text::lower_of(s)) =~= text::lower_of(s));
}

/// The parts of a text in which a part stands between separators.
proof fn lemma_parts_around(before: Seq<char>, part: Seq<char>, after: Seq<char>)
    requires
        before.len() == 0 || before.last() == '&',
        after.len() == 0 || after[0] == '&',
        !part.contains('&'),
    ensures
        text::split_of(before + part + after, '&') == (if before.len() == 0 {
            Seq::empty()
        } else {
            text::split_of(before.drop_last(), '&')
        }) + seq![part] + (if after.len() == 0 {
            Seq::empty()
        } else {
            text::split_of(after.drop_first(), '&')
        }),
{
    let s = before + part + after;
    text::lemma_split_whole(part, '&');
    let middle = part + after;
    if after.len() == 0 {
        assert(middle =~= part);
    } else {
        assert(middle =~= part + seq!['&'] + after.drop_first());
        text::lemma_split_between(part, '&', after.drop_first());
    }
    if before.len() == 0 {
        assert(s =~= middle);
    } else {
        assert(s =~= before.drop_last() + seq!['&'] + middle);
        text::lemma_split_between(before.drop_last(), '&', middle);
    }
    assert(text::split_of(s, '&') =~= (if before.len() == 0 {
        Seq::empty()
    } else {
        text::split_of(before.drop_last(), '&')
    }) + seq![part] + (if after.len() == 0 {
        Seq::empty()
    } else {
        text::split_of(after.drop_first(), '&')
    }));
}

/// Only what redaction makes of a part matters to the redacted text.
proof fn lemma_same_redaction(
    front: Seq<Seq<char>>,
    a: Seq<char>,
    b: Seq<char>,
    back: Seq<Seq<char>>,
)
    requires
        redacted_pair(a) == redacted_pair(b),
    ensures
        redacted_parts(front + seq![a] + back) == redacted_parts(front + seq![b] + back),
    decreases back.len(),
{
    let x = front + seq![a] + back;
    let y = front + seq![b] + back;
    if back.len() == 0 {
        assert(x.drop_last() =~= front);
        assert(y.drop_last() =~= front);
    } else {
        lemma_same_redaction(front, a, b, back.drop_last());
        assert(x.drop_last() =~= front + seq![a] + back.drop_last());
        assert(y.drop_last() =~= front + seq![b] + back.drop_last());
    }
}

fn redact_pair(pair: &str) -> (r: String)
    ensures
        r@ == redacted_pair(pair@),
{
    let (key, value) = text::split_once(pair, '=');
    match value {
        Some(v) => {
            let lower = text::to_ascii_lowercase(key.as_str());
            if is_sensitive_key(lower.as_str()) {
                text::cat3(key.as_str(), "=", "[redacted]")
            } else {
                text::cat3(key.as_str(), "=", v.as_str())
            }
        },
        None => key,
    }
}

pub fn redact_sensitive_text(value: &str) -> (r: String)
    ensures
        r@ == redacted_of(value@),
{
    let parts = text::split(value, '&');
    let ghost all = parts.deep_view();
    let mut out = String::new();
    let mut i: usize = 0;
    assert(all.take(0) =~= Seq::empty());
    while i < parts.len()
        invariant
            i <= parts@.len(),
            all == parts.deep_view(),
            out@ == redacted_parts(all.take(i as int)),
        decreases parts@.len() - i,
    {
        assert(all.take(i + 1).drop_last() =~= all.take(i as int));
        assert(all[i as int] == parts@[i as int]@);
        if !out.as_str().is_empty() {
            out.push('&');
        }
        let pair = redact_pair(parts[i].as_str());
        out.append(pair.as_str());
        i = i + 1;
    }
    assert(all.take(i as int) =~= all);
    out
}

/// A parameter in the form in which it is inspected.
pub open spec fn normal_parameter(pair: Seq<char>, limits: NormalizationLimits) -> (
    Seq<char>,
    Seq<char>,
) {
    let (key, value) = identity::parameter_of(pair);
    let name = text::lower_of(decoded_of(key, limits));
    (
        name,
        if sensitive(name) {
            redacted()
        } else {
            decoded_of(value, limits)
        },
    )
}

/// The parameters with a name, in the form in which they are inspected.
pub open spec fn normal_parameters(parts: Seq<Seq<char>>, limits: NormalizationLimits) -> Seq<
    (Seq<char>, Seq<char>),
>
    decreases parts.len(),
{
    if parts.len() == 0 {
        Seq::empty()
    } else {
        let before = normal_parameters(parts.drop_last(), limits);
        let p = normal_parameter(parts.last(), limits);
        if p.0.len() == 0 {
            before
        } else {
            before.push(p)
        }
    }
}

/// The first parts of a query, as many as the limit allows.
pub open spec fn allowed_parts(raw: Seq<char>, limits: NormalizationLimits) -> Seq<Seq<char>> {
    let parts = text::split_of(raw, '&');
    if parts.len() <= limits.max_query_params {
        parts
    } else {
        parts.take(limits.max_query_params as int)
    }
}

pub open spec fn query_pairs_of(raw: Option<Seq<char>>, limits: NormalizationLimits) -> Seq<
    (Seq<char>, Seq<char>),
> {
    match raw {
        Some(raw) => normal_parameters(allowed_parts(raw, limits), limits),
        None => Seq::empty(),
    }
}

fn normalize_parameter(pair: &str, limits: &NormalizationLimits) -> (r: (String, String))
    ensures
        (r.0@, r.1@) == normal_parameter(pair@, *limits),
{
    let (key, value) = identity::parse_parameter(pair);
    let decoded = bounded_decode(key.as_str(), limits);
    let name = text::to_ascii_lowercase(decoded.as_str());
    let shown = if is_sensitive_key(name.as_str()) {
        "[redacted]".to_string()
    } else {
        bounded_decode(value.as_str(), limits)
    };
    (name, shown)
}

pub fn normalize_query(raw: Option<&str>, limits: &NormalizationLimits) -> (r: Vec<(String, String)>)
    ensures
        r.deep_view() == query_pairs_of(raw.deep_view(), *limits),
{
    let mut out: Vec<(String, String)> = Vec::new();
    assert(out.deep_view() =~= Seq::empty());
    match raw {
        Some(raw) => {
            let parts = text::split(raw, '&');
            let n: usize = if parts.len() <= limits.max_query_params {
                parts.len()
            } else {
                limits.max_query_params
            };
            let ghost all = allowed_parts(raw@, *limits);
            assert(all =~= parts.deep_view().take(n as int));
            let mut i: usize = 0;
            assert(all.take(0) =~= Seq::empty());
            while i < n
                invariant
                    i <= n <= parts@.len(),
                    all == parts.deep_view().take(n as int),
                    out.deep_view() == normal_parameters(all.take(i as int), *limits),
                decreases n - i,
            {
                assert(all.take(i + 1).drop_last() =~= all.take(i as int));
                assert(all[i as int] == parts@[i as int]@);
                let (key, value) = normalize_parameter(parts[i].as_str(), limits);
                if !key.as_str().is_empty() {
                    text::push_pair(&mut out, key, value);
                }
                i = i + 1;
            }
            assert(all.take(i as int) =~= all);
            out
        },
        None => out,
    }
}

/// How many of some parts are not empty.
pub open spec fn filled_count(parts: Seq<Seq<char>>) -> nat
    decreases parts.len(),
{
    if parts.len() == 0 {
        0
    } else {
        filled_count(parts.drop_last()) + if parts.last().len() > 0 {
            1nat
        } else {
            0
        }
    }
}

/// The number of parameters, counted up to one more than the limit.
pub open spec fn parameter_count_of(raw: Option<Seq<char>>, max_query_params: usize) -> nat {
    match raw {
        Some(raw) => {
            let n = filled_count(text::split_of(raw, '&'));
            let most = if max_query_params < usize::MAX {
                (max_query_params + 1) as nat
            } else {
                usize::MAX as nat
            };
            if n < most {
                n
            } else {
                most
            }
        },
        None => 0,
    }
}

pub fn count_query_params(raw: Option<&str>, max_query_params: usize) -> (r: usize)
    ensures
        r == parameter_count_of(raw.deep_view(), max_query_params),
{
    match raw {
        Some(raw) => {
            let parts = text::split(raw, '&');
            let ghost all = parts.deep_view();
            let mut n: usize = 0;
            let mut i: usize = 0;
            assert(all.take(0) =~= Seq::empty());
            while i < parts.len()
                invariant
                    i <= parts@.len(),
                    all == parts.deep_view(),
                    n == filled_count(all.take(i as int)),
                    n <= i,
                decreases parts@.len() - i,
            {
                assert(all.take(i + 1).drop_last() =~= all.take(i as int));
                assert(all[i as int] == parts@[i as int]@);
                if !parts[i].as_str().is_empty() {
                    n = n + 1;
                }
                i = i + 1;
            }
            assert(all.take(i as int) =~= all);
            let most = max_query_params.saturating_add(1);
            if n < most {
                n
            } else {
                most
            }
        },
        None => 0,
    }
}

/// The media type of a content-type header, in lower case and without parameters.
pub open spec fn media_type_of(value: Option<Seq<char>>) -> Option<Seq<char>> {
    match value {
        Some(v) => {
            let m = text::lower_of(text::trim_of(text::split_of(v, ';')[0]));
            if m.len() > 0 {
                Some(m)
            } else {
                None
            }
        },
        None => None,
    }
}

pub fn media_type(headers: &Headers) -> (r: Option<String>)
    ensures
        r.deep_view() == media_type_of(headers::field_text(*headers, "content-type"@)),
{
    match headers.get("content-type") {
        Some(v) => {
            let parts = text::split(v, ';');
            proof {
                text::lemma_split_parts(v@, ';');
                assert(parts.deep_view()[0] == parts@[0]@);
            }
            let trimmed = text::trim(parts[0].as_str());
            let m = text::to_ascii_lowercase(trimmed.as_str());
            if m.as_str().is_empty() {
                None
            } else {
                Some(m)
            }
        },
        None => None,
    }
}

/// The forms of a body that are inspected: as it came and, where that differs, decoded.
pub open spec fn body_variants_of(body: Option<Seq<char>>, limits: NormalizationLimits) -> Seq<
    Seq<char>,
> {
    match body {
        Some(body) => {
            let decoded = decoded_of(body, limits);
            let first = seq![redacted_of(text::bounded_of(body, limits.max_bytes as nat))];
            if decoded != body {
                first.push(redacted_of(decoded))
            } else {
                first
            }
        },
        None => Seq::empty(),
    }
}

fn body_forms(body: &Option<String>, limits: &NormalizationLimits) -> (r: Vec<String>)
    ensures
        r.deep_view() == body_variants_of(body.deep_view(), *limits),
{
    let mut out: Vec<String> = Vec::new();
    match body {
        Some(body) => {
            let decoded = bounded_decode(body.as_str(), limits);
            let cut = bounded(body.as_str(), limits.max_bytes);
            out.push(redact_sensitive_text(cut.as_str()));
            assert(out.deep_view() =~= seq![redacted_of(cut@)]);
            if !text::same(decoded.as_str(), body.as_str()) {
                text::push_text(&mut out, redact_sensitive_text(decoded.as_str()));
            }
        },
        None => {
            assert(out.deep_view() =~= Seq::empty());
        },
    }
    out
}

/// A body field in the form in which it is inspected.
pub open spec fn normal_field(f: ParsedBodyFieldView, limits: NormalizationLimits) -> (
    Seq<char>,
    Seq<char>,
) {
    let name = text::lower_of(decoded_of(f.key, limits));
    (
        "body."@ + name,
        if sensitive(name) {
            redacted()
        } else {
            decoded_of(f.value_preview, limits)
        },
    )
}

/// Everything that is inspected, with where it stands: the path, the query, the body fields and the
/// body.
pub open spec fn inspection_of(
    path: Seq<char>,
    query_pairs: Seq<(Seq<char>, Seq<char>)>,
    fields: Seq<ParsedBodyFieldView>,
    body_variants: Seq<Seq<char>>,
    limits: NormalizationLimits,
) -> Seq<(Seq<char>, Seq<char>)> {
    seq![("request.path"@, path)] + Seq::new(
        query_pairs.len(),
        |i: int| ("query."@ + query_pairs[i].0, query_pairs[i].1),
    ) + Seq::new(fields.len(), |i: int| normal_field(fields[i], limits)) + Seq::new(
        body_variants.len(),
        |i: int| ("request.body"@, body_variants[i]),
    )
}

/// A request in the form in which it is inspected.
pub open spec fn normalized_of(
    request: RequestContext,
    h: Headers,
    limits: NormalizationLimits,
) -> NormalizedRequestView {
    let path = text::lower_of(decoded_of(request.path@, limits));
    let query_pairs = query_pairs_of(request.query.deep_view(), limits);
    let body_variants = body_variants_of(request.body_preview.deep_view(), limits);
    NormalizedRequestView {
        method: text::upper_of(request.method@),
        path,
        query_pairs,
        content_type: media_type_of(headers::field_text(h, "content-type"@)),
        body_variants,
        inspection_values: inspection_of(
            path,
            query_pairs,
            request.parsed_body_fields.deep_view(),
            body_variants,
            limits,
        ),
        query_param_count: parameter_count_of(
            request.query.deep_view(),
            limits.max_query_params,
        ) as usize,
    }
}

fn normalize_field(f: &ParsedBodyField, limits: &NormalizationLimits) -> (r: (String, String))
    ensures
        (r.0@, r.1@) == normal_field(f.deep_view(), *limits),
{
    let decoded = bounded_decode(f.key.as_str(), limits);
    let name = text::to_ascii_lowercase(decoded.as_str());
    let value = if is_sensitive_key(name.as_str()) {
        "[redacted]".to_string()
    } else {
        bounded_decode(f.value_preview.as_str(), limits)
    };
    (text::cat2("body.", name.as_str()), value)
}

fn inspected_values(
    path: &str,
    query_pairs: &Vec<(String, String)>,
    fields: &Vec<ParsedBodyField>,
    body_variants: &Vec<String>,
    limits: &NormalizationLimits,
) -> (r: Vec<(String, String)>)
    ensures
        r.deep_view() == inspection_of(
            path@,
            query_pairs.deep_view(),
            fields.deep_view(),
            body_variants.deep_view(),
            *limits,
        ),
{
    let ghost first = seq![("request.path"@, path@)];
    let ghost second = Seq::new(
        query_pairs.deep_view().len(),
        |i: int| ("query."@ + query_pairs.deep_view()[i].0, query_pairs.deep_view()[i].1),
    );
    let ghost third = Seq::new(
        fields.deep_view().len(),
        |i: int| normal_field(fields.deep_view()[i], *limits),
    );
    let ghost fourth = Seq::new(
        body_variants.deep_view().len(),
        |i: int| ("request.body"@, body_variants.deep_view()[i]),
    );
    let mut out: Vec<(String, String)> = Vec::new();
    out.push(("request.path".to_string(), path.to_string()));
    assert(out.deep_view() =~= first + second.take(0));
    let mut i: usize = 0;
    while i < query_pairs.len()
        invariant
            i <= query_pairs@.len(),
            second == Seq::new(
                query_pairs.deep_view().len(),
                |i: int| ("query."@ + query_pairs.deep_view()[i].0, query_pairs.deep_view()[i].1),
            ),
            out.deep_view() == first + second.take(i as int),
        decreases query_pairs@.len() - i,
    {
        let place = text::cat2("query.", query_pairs[i].0.as_str());
        let value = query_pairs[i].1.clone();
        assert(query_pairs.deep_view()[i as int] == (
            query_pairs@[i as int].0@,
            query_pairs@[i as int].1@,
        ));
        assert(second[i as int] == (place@, value@));
        text::push_pair(&mut out, place, value);
        i = i + 1;
        assert(out.deep_view() =~= first + second.take(i as int));
    }
    assert(second.take(i as int) =~= second);
    assert(out.deep_view() =~= first + second + third.take(0));
    let mut j: usize = 0;
    while j < fields.len()
        invariant
            j <= fields@.len(),
            third == Seq::new(
                fields.deep_view().len(),
                |i: int| normal_field(fields.deep_view()[i], *limits),
            ),
            out.deep_view() == first + second + third.take(j as int),
        decreases fields@.len() - j,
    {
        let (place, value) = normalize_field(&fields[j], limits);
        assert(fields.deep_view()[j as int] == fields@[j as int].deep_view());
        assert(third[j as int] == (place@, value@));
        text::push_pair(&mut out, place, value);
        j = j + 1;
        assert(out.deep_view() =~= first + second + third.take(j as int));
    }
    assert(third.take(j as int) =~= third);
    assert(out.deep_view() =~= first + second + third + fourth.take(0));
    let mut k: usize = 0;
    while k < body_variants.len()
        invariant
            k <= body_variants@.len(),
            fourth == Seq::new(
                body_variants.deep_view().len(),
                |i: int| ("request.body"@, body_variants.deep_view()[i]),
            ),
            out.deep_view() == first + second + third + fourth.take(k as int),
        decreases body_variants@.len() - k,
    {
        let value = body_variants[k].clone();
        assert(body_variants.deep_view()[k as int] == value@);
        text::push_pair(&mut out, "request.body".to_string(), value);
        k = k + 1;
        assert(out.deep_view() =~= first + second + third + fourth.take(k as int));
    }
    assert(fourth.take(k as int) =~= fourth);
    out
}

pub fn normalize_request(
    request: &RequestContext,
    headers: &Headers,
    limits: NormalizationLimits,
) -> (r: NormalizedRequest)
    ensures
        r.deep_view() == normalized_of(*request, *headers, limits),
{
    let decoded = bounded_decode(request.path.as_str(), &limits);
    let path = text::to_ascii_lowercase(decoded.as_str());
    let query: Option<&str> = match &request.query {
        Some(q) => Some(q.as_str()),
        None => None,
    };
    assert(query.deep_view() == request.query.deep_view());
    let query_param_count = count_query_params(query, limits.max_query_params);
    let query_pairs = normalize_query(query, &limits);
    let content_type = media_type(headers);
    let body_variants = body_forms(&request.body_preview, &limits);
    let inspection_values = inspected_values(
        path.as_str(),
        &query_pairs,
        &request.parsed_body_fields,
        &body_variants,
        &limits,
    );
    NormalizedRequest {
        method: text::to_ascii_uppercase(request.method.as_str()),
        path,
        query_pairs,
        content_type,
        body_variants,
        inspection_values,
        query_param_count,
    }
}

/// The value of a query parameter with a sensitive name is never shown.
pub proof fn law_query_values_redacted(raw: Option<Seq<char>>, limits: NormalizationLimits)
    ensures
        forall|i: int|
            0 <= i < query_pairs_of(raw, limits).len() && sensitive(
                (#[trigger] query_pairs_of(raw, limits)[i]).0,
            ) ==> query_pairs_of(raw, limits)[i].1 == redacted(),
{
    match raw {
        Some(raw) => {
            lemma_parameters_redacted(allowed_parts(raw, limits), limits);
        },
        None => {},
    }
}

proof fn lemma_parameters_redacted(parts: Seq<Seq<char>>, limits: NormalizationLimits)
    ensures
        normal_parameters(parts, limits).len() <= parts.len(),
        forall|i: int|
            0 <= i < normal_parameters(parts, limits).len() ==> {
                let p = #[trigger] normal_parameters(parts, limits)[i];
                &&& p.0.len() > 0
                &&& sensitive(p.0) ==> p.1 == redacted()
            },
    decreases parts.len(),
{
    if parts.len() > 0 {
        lemma_parameters_redacted(parts.drop_last(), limits);
        let before = normal_parameters(parts.drop_last(), limits);
        let after = normal_parameters(parts, limits);
        assert forall|i: int| 0 <= i < after.len() implies {
            let p = #[trigger] after[i];
            &&& p.0.len() > 0
            &&& sensitive(p.0) ==> p.1 == redacted()
        } by {
            if i < before.len() {
                assert(after[i] == before[i]);
            }
        }
    }
}

/// The value of a body field with a sensitive name is never shown.
pub proof fn law_field_values_redacted(f: ParsedBodyFieldView, limits: NormalizationLimits)
    requires
        sensitive(text::lower_of(decoded_of(f.key, limits))),
    ensures
        normal_field(f, limits).1 == redacted(),
{
}

/// No more parameters are inspected than the limit allows, and the count that is reported goes at
/// most one beyond it.
pub proof fn law_query_bounded(raw: Option<Seq<char>>, limits: NormalizationLimits)
    ensures
        query_pairs_of(raw, limits).len() <= limits.max_query_params,
        parameter_count_of(raw, limits.max_query_params) <= limits.max_query_params + 1,
{
    match raw {
        Some(raw) => {
            lemma_parameters_redacted(allowed_parts(raw, limits), limits);
        },
        None => {},
    }
}

} // verus!
