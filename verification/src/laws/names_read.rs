//! Which names are secrets and which are names of objects.

use crate::behavior;
use crate::config;
use crate::config::ConfigError;
use crate::detection::normalization;
use crate::identity;
use crate::mitigation;
use crate::policy;
use crate::routes;
use crate::store::RecordView;
use crate::text;
use crate::types::RequestContext;
use vstd::prelude::*;

verus! {

/// A name is that of a secret where one of a few words stands in it, whatever the case and the signs
/// around.
pub proof fn law_secret_names(key: Seq<char>)
    ensures
        ({
            let name = text::lower_of(text::cleaned_of(key, false));
            normalization::sensitive(key) <==> {
                ||| text::has_part(name, "password"@)
                ||| text::has_part(name, "passwd"@)
                ||| text::has_part(name, "token"@)
                ||| text::has_part(name, "secret"@)
                ||| text::has_part(name, "authorization"@)
                ||| text::has_part(name, "api_key"@)
                ||| text::has_part(name, "apikey"@)
                ||| text::has_part(name, "session"@)
                ||| text::has_part(name, "cookie"@)
                ||| text::has_part(name, "card"@)
            }
        }),
{
    let words = normalization::sensitive_words();
    assert(words.len() == 10);
    assert(words[0] == "password"@);
    assert(words[1] == "passwd"@);
    assert(words[2] == "token"@);
    assert(words[3] == "secret"@);
    assert(words[4] == "authorization"@);
    assert(words[5] == "api_key"@);
    assert(words[6] == "apikey"@);
    assert(words[7] == "session"@);
    assert(words[8] == "cookie"@);
    assert(words[9] == "card"@);
}

/// Whether every character of a text is a digit.
pub open spec fn is_number(s: Seq<char>) -> bool {
    forall|i: int| 0 <= i < s.len() ==> '0' <= #[trigger] s[i] <= '9'
}

/// Whether every character of a text is a hexadecimal digit.
pub open spec fn is_hex(s: Seq<char>) -> bool {
    forall|i: int|
        0 <= i < s.len() ==> '0' <= #[trigger] s[i] <= '9' || 'a' <= s[i] <= 'f' || 'A' <= s[i]
            <= 'F'
}

/// Whether every character of a text is a hexadecimal digit or a hyphen.
pub open spec fn is_dashed_hex(s: Seq<char>) -> bool {
    forall|i: int|
        0 <= i < s.len() ==> '0' <= #[trigger] s[i] <= '9' || 'a' <= s[i] <= 'f' || 'A' <= s[i]
            <= 'F' || s[i] == '-'
}

/// Whether every character of a text is a letter, a digit, an underscore or a hyphen.
pub open spec fn is_word(s: Seq<char>) -> bool {
    forall|i: int|
        0 <= i < s.len() ==> '0' <= #[trigger] s[i] <= '9' || 'a' <= s[i] <= 'z' || 'A' <= s[i]
            <= 'Z' || s[i] == '_' || s[i] == '-'
}

proof fn lemma_classes(s: Seq<char>)
    ensures
        text::all_digits(s) == is_number(s),
        routes::all_hex(s) == is_hex(s),
        routes::all_hex_or_dash(s) == is_dashed_hex(s),
        routes::all_word(s) == is_word(s),
{
    assert(forall|i: int|
        0 <= i < s.len() ==> (text::is_digit_char(#[trigger] s[i]) <==> '0' <= s[i] <= '9'));
    assert(forall|i: int|
        0 <= i < s.len() ==> (routes::is_hex_char(#[trigger] s[i]) <==> '0' <= s[i] <= '9' || 'a'
            <= s[i] <= 'f' || 'A' <= s[i] <= 'F'));
    assert(forall|i: int|
        0 <= i < s.len() ==> (routes::is_word_char(#[trigger] s[i]) <==> '0' <= s[i] <= '9' || 'a'
            <= s[i] <= 'z' || 'A' <= s[i] <= 'Z' || s[i] == '_' || s[i] == '-'));
}

/// A part of a path names an object where it is a number, a long hexadecimal number, a longer word,
/// or of the form of an identifier with hyphens. Any of these becomes the same placeholder.
pub proof fn law_object_segment(s: Seq<char>)
    ensures
        routes::is_id_segment(s) <==> {
            ||| s.len() >= 1 && is_number(s)
            ||| s.len() >= 8 && is_hex(s)
            ||| s.len() >= 16 && is_word(s)
            ||| s.len() == 36 && is_dashed_hex(s)
        },
        routes::is_id_segment(s) ==> routes::normal_segment(s) == "{id}"@,
        !routes::is_id_segment(s) ==> routes::normal_segment(s) == text::lower_of(s),
{
    lemma_classes(s);
}

/// What the history of a principal takes for a part of a path that names an object.
pub open spec fn is_seen_object(s: Seq<char>) -> bool {
    s.len() >= 1 && is_number(s) || s.len() >= 8 && is_dashed_hex(s)
}

proof fn lemma_seen_object(s: Seq<char>)
    ensures
        behavior::object_id(s) == is_seen_object(s),
{
    lemma_classes(s);
    assert(forall|i: int|
        0 <= i < s.len() ==> (behavior::is_hex_or_dash(#[trigger] s[i]) <==> '0' <= s[i] <= '9'
            || 'a' <= s[i] <= 'f' || 'A' <= s[i] <= 'F' || s[i] == '-'));
}

proof fn lemma_pushed(s: Seq<Seq<char>>, last: Seq<char>, x: Seq<char>)
    ensures
        s.push(last).contains(x) == (s.contains(x) || x == last),
{
    let t = s.push(last);
    assert(t[s.len() as int] == last);
    if s.contains(x) {
        let i = choose|i: int| 0 <= i < s.len() && s[i] == x;
        assert(t[i] == x);
    }
    if t.contains(x) {
        let i = choose|i: int| 0 <= i < t.len() && t[i] == x;
        if i < s.len() {
            assert(s[i] == x);
        }
    }
}

/// The history of a principal holds the parts of a path that name an object, and no others.
pub proof fn law_objects_in_path(parts: Seq<Seq<char>>, v: Seq<char>)
    ensures
        behavior::segment_ids(parts).contains(v) <==> parts.contains(v) && is_seen_object(v),
    decreases parts.len(),
{
    if parts.len() > 0 {
        let before = parts.drop_last();
        law_objects_in_path(before, v);
        lemma_seen_object(parts.last());
        lemma_pushed(before, parts.last(), v);
        lemma_pushed(behavior::segment_ids(before), parts.last(), v);
        assert(before.push(parts.last()) =~= parts);
    }
}

/// Whether a parameter has a name that ends in `id`, and a value.
pub open spec fn is_id_parameter(pair: Seq<char>, v: Seq<char>) -> bool {
    let (key, value) = text::split_once_of(pair, '=');
    text::has_suffix(text::lower_of(key), "id"@) && value == Some(v) && v.len() > 0
}

/// The history of a principal holds the values of the parameters whose names end in `id`, and no
/// others.
pub proof fn law_objects_in_query(pairs: Seq<Seq<char>>, v: Seq<char>)
    ensures
        behavior::pair_ids(pairs).contains(v) <==> exists|i: int|
            0 <= i < pairs.len() && is_id_parameter(#[trigger] pairs[i], v),
    decreases pairs.len(),
{
    if pairs.len() > 0 {
        let before = pairs.drop_last();
        let last = pairs.last();
        law_objects_in_query(before, v);
        assert(last == pairs[pairs.len() - 1]);
        assert(forall|i: int| 0 <= i < before.len() ==> #[trigger] before[i] == pairs[i]);
        if behavior::pair_id(last) is Some {
            lemma_pushed(behavior::pair_ids(before), behavior::pair_id(last)->0, v);
        }
        assert(behavior::pair_id(last) == Some(v) <==> is_id_parameter(last, v));
        if exists|i: int| 0 <= i < before.len() && is_id_parameter(#[trigger] before[i], v) {
            let i = choose|i: int|
                0 <= i < before.len() && is_id_parameter(#[trigger] before[i], v);
            assert(is_id_parameter(pairs[i], v));
        }
        if exists|i: int| 0 <= i < pairs.len() && is_id_parameter(#[trigger] pairs[i], v) {
            let i = choose|i: int| 0 <= i < pairs.len() && is_id_parameter(#[trigger] pairs[i], v);
            if i < before.len() {
                assert(is_id_parameter(before[i], v));
            }
        }
    }
}

/// What a request adds to the history comes of its path, its query and its body.
pub proof fn law_objects_seen(context: RequestContext, v: Seq<char>)
    ensures
        ({
            let all = behavior::object_names(context);
            let path = text::split_of(context.path@, '/');
            let query = context.query.deep_view();
            &&& path.contains(v) && is_seen_object(v) ==> all.contains(v)
            &&& query is Some && behavior::pair_ids(text::split_of(query->0, '&')).contains(v)
                ==> all.contains(v)
            &&& identity::field_ids(context.parsed_body_fields.deep_view()).contains(v)
                ==> all.contains(v)
        }),
{
    let a = behavior::segment_ids(text::split_of(context.path@, '/'));
    let b = match context.query.deep_view() {
        Some(query) => behavior::pair_ids(text::split_of(query, '&')),
        None => Seq::empty(),
    };
    let c = identity::field_ids(context.parsed_body_fields.deep_view());
    let all = behavior::object_names(context);
    law_objects_in_path(text::split_of(context.path@, '/'), v);
    assert(all =~= a + b + c);
    if a.contains(v) {
        let i = choose|i: int| 0 <= i < a.len() && a[i] == v;
        assert(all[i] == v);
    }
    if b.contains(v) {
        let i = choose|i: int| 0 <= i < b.len() && b[i] == v;
        assert(all[a.len() + i] == v);
    }
    if c.contains(v) {
        let i = choose|i: int| 0 <= i < c.len() && c[i] == v;
        assert(all[a.len() + b.len() + i] == v);
    }
}

/// A risk is shown with its whole part, a point and two digits.
pub proof fn law_two_digits(n: int)
    requires
        n >= 0,
    ensures
        ({
            let shown = policy::two_decimals(n);
            let k = shown.len() - 3;
            &&& k >= 0 && shown.take(k) == text::decimal_of((n / 1_000_000) as nat)
            &&& shown[k] == '.'
            &&& (shown[k + 1] as u32 - 48) * 10 + (shown[k + 2] as u32 - 48) == (n / 10_000) % 100
        }),
{
    reveal_strlit(".");
    let shown = policy::two_decimals(n);
    let k = shown.len() - 3;
    assert(shown.take(k) =~= text::decimal_of((n / 1_000_000) as nat));
    let a = (n / 100_000) % 10;
    let b = (n / 10_000) % 10;
    assert(shown[k + 1] == text::digit_char(a as nat));
    assert(shown[k + 2] == text::digit_char(b as nat));
    assert(n / 100_000 == (n / 10_000) / 10);
    assert(a * 10 + b == (n / 10_000) % 100);
}

/// A source is listed with the reputation that is kept of it.
pub proof fn law_reputation_listed(m: Map<Seq<char>, RecordView>, ip: Seq<char>)
    requires
        m.dom().contains(ip),
        m[ip] is Reputation,
    ensures
        ({
            let r = mitigation::listed_reputation(m, ip);
            let kept = m[ip]->Reputation_0;
            &&& r.source_ip == ip && r.suspicious_score == kept.suspicious_score
            &&& r.last_seen_at == kept.last_seen_at
        }),
{
}

/// What is wrong with the settings is told with the name of the setting.
pub proof fn law_config_errors_told(e: ConfigError)
    ensures
        ({
            let told = config::config_error_text(e);
            &&& e is EnrollmentUrlMissing ==> told
                == "control-plane enrollment is enabled but enrollment_url is missing"@
            &&& e is EnrollmentTokenMissing ==> told
                == "control-plane enrollment is enabled but enrollment_token is missing"@
            &&& e is IngestionUrlMissing ==> told
                == "control-plane telemetry is enabled but ingestion_url is missing"@
            &&& e is ApiKeyMissing ==> told
                == "control-plane telemetry is enabled but api_key is missing"@
            &&& e is FirewallInstanceIdMissing ==> told
                == "control-plane telemetry is enabled but firewall_instance_id is missing"@
            &&& e is RequestTimeoutOutOfRange ==> told
                == "control-plane telemetry request_timeout_ms must be between 1 and 30000"@
            &&& e is QueueCapacityOutOfRange ==> told
                == "control-plane telemetry queue_capacity must be between 1 and 100000"@
            &&& e is MinBlockConfidenceOutOfRange ==> told
                == "security.min_block_confidence must be between 0 and 1"@
            &&& e is MinBlockScoreOutOfRange ==> told
                == "security.min_block_score must be between 0 and 100"@
            &&& e is TooManyDecodePasses ==> told
                == "discovery.max_decode_passes must be 4 or less"@
            &&& e is NormalizedBytesOutOfRange ==> told
                == "discovery.max_normalized_bytes must be between 1 and 262144"@
        }),
{
}

} // verus!
