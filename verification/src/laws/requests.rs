//! What the inspection of a request reports besides attacks in what it sends.

use crate::config::AppConfig;
use crate::detection;
use crate::detection::detectors;
use crate::detection::inspection;
use crate::detection::normalization;
use crate::detection::schema_learning::LearnedJsonSchemaView;
use crate::detection::tokens;
use crate::headers;
use crate::headers::{Header, Headers};
use crate::identity;
use crate::inventory;
use crate::json;
use crate::json::{JsonNodeView, JsonView};
use crate::laws;
use crate::laws::attacks;
use crate::laws::sources;
use crate::routes;
use crate::text;
use crate::types;
use crate::types::{
    ApiInventoryStatus, AttackClass, AuthStatus, LearnedRouteView, LivePolicyState,
    ParsedBodyFieldView, RequestContext,
};
use vstd::prelude::*;

verus! {

/// Credentials that are missing or unknown, and a method that is blocked, are reported; nothing
/// else is reported under their names.
pub proof fn law_credentials_and_method_reported(
    config: AppConfig,
    policy: LivePolicyState,
    known: Seq<LearnedRouteView>,
    hits: u64,
    schemas: Seq<(Seq<char>, LearnedJsonSchemaView)>,
    request: RequestContext,
    h: Headers,
)
    ensures
        ({
            let reported = attacks::found_in(config, policy, known, hits, schemas, request, h);
            let blocked = config.security.blocked_methods.deep_view();
            &&& laws::cites(reported, "auth.missing_api_key"@, "request.headers"@) == (
            request.auth_status == AuthStatus::Missing)
            &&& laws::cites(reported, "auth.invalid_api_key"@, "request.headers"@) == (
            request.auth_status == AuthStatus::Invalid)
            &&& laws::names(reported, AttackClass::MethodAbuse, "request.method"@) == exists|i: int|
                0 <= i < blocked.len() && text::lower_of(#[trigger] blocked[i]) == text::lower_of(
                    request.method@,
                )
        }),
{
    broadcast use laws::group_findings;

    attacks::lemma_reported_by_class(config, policy, known, hits, schemas, request, h);
    sources::lemma_protocol_rules();
    reveal_strlit("auth.missing_api_key");
    reveal_strlit("auth.invalid_api_key");
    assert("auth.missing_api_key"@[5] == 'm');
    assert("auth.invalid_api_key"@[5] == 'i');
}

/// Which credentials a request has: none are asked for where authentication is off or no protected
/// prefix fits the path; else the key in the header must be one of the known ones.
pub proof fn law_auth_status(config: AppConfig, path: Seq<char>, h: Headers)
    ensures
        ({
            let prefixes = config.auth.protected_path_prefixes.deep_view();
            let guarded = config.auth.enabled && exists|i: int|
                0 <= i < prefixes.len() && text::has_prefix(path, #[trigger] prefixes[i]);
            let key = headers::field_text(h, config.auth.header_name@);
            let status = identity::auth_status_of(config, path, h);
            &&& (status == AuthStatus::NotRequired) == !guarded
            &&& (status == AuthStatus::Missing) == (guarded && key is None)
            &&& (status == AuthStatus::Invalid) == (guarded && key is Some
                && !config.auth.api_keys.deep_view().contains(key->0))
            &&& (status == AuthStatus::Satisfied) == (guarded && key is Some
                && config.auth.api_keys.deep_view().contains(key->0))
        }),
{
}

/// A header is found under its name, whatever the case in which the name is asked for; of several
/// the first counts.
pub proof fn law_header_found(h: Headers, name: Seq<char>)
    ensures
        match headers::field_in(h.entries@, text::lower_of(name)) {
            Some(f) => exists|i: int|
                0 <= i < h.entries@.len() && #[trigger] h.entries@[i] == f && f.name@
                    == text::lower_of(name) && forall|j: int|
                    0 <= j < i ==> (#[trigger] h.entries@[j]).name@ != text::lower_of(name),
            None => forall|i: int|
                0 <= i < h.entries@.len() ==> (#[trigger] h.entries@[i]).name@ != text::lower_of(
                    name,
                ),
        },
        headers::has_field(h, name) == exists|i: int|
            0 <= i < h.entries@.len() && (#[trigger] h.entries@[i]).name@ == text::lower_of(name),
        headers::field_text(h, name) is Some ==> headers::has_field(h, name),
        forall|other: Seq<char>|
            text::lower_of(other) == text::lower_of(name) ==> #[trigger] headers::field_text(
                h,
                other,
            ) == headers::field_text(h, name),
{
    lemma_field_in(h.entries@, text::lower_of(name));
}

proof fn lemma_field_in(s: Seq<Header>, name: Seq<char>)
    ensures
        match headers::field_in(s, name) {
            Some(f) => exists|i: int|
                0 <= i < s.len() && #[trigger] s[i] == f && f.name@ == name && forall|j: int|
                    0 <= j < i ==> (#[trigger] s[j]).name@ != name,
            None => forall|i: int| 0 <= i < s.len() ==> (#[trigger] s[i]).name@ != name,
        },
    decreases s.len(),
{
    if s.len() > 0 && s[0].name@ != name {
        let rest = s.drop_first();
        lemma_field_in(rest, name);
        match headers::field_in(rest, name) {
            Some(f) => {
                let i = choose|i: int|
                    0 <= i < rest.len() && #[trigger] rest[i] == f && f.name@ == name && forall|
                        j: int,
                    |
                        0 <= j < i ==> (#[trigger] rest[j]).name@ != name;
                assert(s[i + 1] == f);
                assert forall|j: int| 0 <= j < i + 1 implies (#[trigger] s[j]).name@ != name by {
                    if j > 0 {
                        assert(rest[j - 1] == s[j]);
                    }
                }
            },
            None => {
                assert forall|i: int| 0 <= i < s.len() implies (#[trigger] s[i]).name@ != name by {
                    if i > 0 {
                        assert(rest[i - 1] == s[i]);
                    }
                }
            },
        }
    } else if s.len() > 0 {
        assert(s[0].name@ == name);
    }
}

/// Whether a value holds a carriage return or a line feed.
pub open spec fn breaks_line(value: Seq<char>) -> bool {
    value.contains('\r') || value.contains('\n')
}

proof fn lemma_breaks_line(value: Seq<char>)
    ensures
        breaks_line(text::lower_of(value)) == breaks_line(value),
{
    let l = text::lower_of(value);
    assert forall|i: int| 0 <= i < value.len() implies {
        &&& (#[trigger] l[i] == '\r') == (value[i] == '\r')
        &&& (l[i] == '\n') == (value[i] == '\n')
    } by {
        let c = value[i];
        if 'A' <= c && c <= 'Z' {
            assert(97 <= text::lower_char_of(c) as u32 <= 122);
        }
    }
    if value.contains('\r') {
        let i = choose|i: int| 0 <= i < value.len() && value[i] == '\r';
        assert(l[i] == '\r');
    }
    if value.contains('\n') {
        let i = choose|i: int| 0 <= i < value.len() && value[i] == '\n';
        assert(l[i] == '\n');
    }
    if l.contains('\r') {
        let i = choose|i: int| 0 <= i < l.len() && l[i] == '\r';
        assert(value[i] == '\r');
    }
    if l.contains('\n') {
        let i = choose|i: int| 0 <= i < l.len() && l[i] == '\n';
        assert(value[i] == '\n');
    }
}

/// Whether a field is text, under a name, with a line break in it.
pub open spec fn is_split_field(f: Header, name: Seq<char>) -> bool {
    f.name@ == name && f.value is Some && breaks_line(f.value->0@)
}

/// Whether a field announces a body in chunks.
pub open spec fn is_chunked_field(f: Header) -> bool {
    f.name@ == "transfer-encoding"@ && f.value is Some && text::has_part(
        text::lower_of(f.value->0@),
        "chunked"@,
    )
}

proof fn lemma_fields_named(
    policy: LivePolicyState,
    path: Seq<char>,
    h: Headers,
    fields: Seq<Header>,
    name: Seq<char>,
)
    ensures
        ({
            let found = detectors::fields_findings(policy, path, h, fields);
            &&& laws::names(found, AttackClass::HeaderInjection, "header."@ + name) == exists|i: int|
                0 <= i < fields.len() && is_split_field(#[trigger] fields[i], name)
            &&& laws::cites(found, "smuggling.cl_te"@, "header.transfer-encoding"@) == (
            headers::has_field(h, "content-length"@) && exists|i: int|
                0 <= i < fields.len() && is_chunked_field(#[trigger] fields[i]))
        }),
    decreases fields.len(),
{
    broadcast use laws::group_findings;

    reveal_strlit("header.");
    reveal_strlit("transfer-encoding");
    reveal_strlit("header.transfer-encoding");
    reveal_strlit("header.crlf");
    reveal_strlit("smuggling.cl_te");
    assert("header."@ + "transfer-encoding"@ =~= "header.transfer-encoding"@);
    if fields.len() > 0 {
        let before = fields.drop_last();
        let f = fields.last();
        lemma_fields_named(policy, path, h, before, name);
        assert(f == fields[fields.len() - 1]);
        if f.value is Some {
            let value = f.value->0@;
            lemma_breaks_line(value);
            assert(("header."@ + f.name@).skip(7) =~= f.name@);
            assert(("header."@ + name).skip(7) =~= name);
            assert("header.transfer-encoding"@.skip(7) =~= "transfer-encoding"@);
            assert("header.crlf"@.len() != "smuggling.cl_te"@.len());
        }
        assert(forall|i: int| 0 <= i < before.len() ==> #[trigger] before[i] == fields[i]);
        if exists|i: int| 0 <= i < before.len() && is_split_field(#[trigger] before[i], name) {
            let i = choose|i: int| 0 <= i < before.len() && is_split_field(#[trigger] before[i], name);
            assert(is_split_field(fields[i], name));
        }
        if exists|i: int| 0 <= i < fields.len() && is_split_field(#[trigger] fields[i], name) {
            let i = choose|i: int| 0 <= i < fields.len() && is_split_field(#[trigger] fields[i], name);
            if i < before.len() {
                assert(is_split_field(before[i], name));
            }
        }
        if exists|i: int| 0 <= i < before.len() && is_chunked_field(#[trigger] before[i]) {
            let i = choose|i: int| 0 <= i < before.len() && is_chunked_field(#[trigger] before[i]);
            assert(is_chunked_field(fields[i]));
        }
        if exists|i: int| 0 <= i < fields.len() && is_chunked_field(#[trigger] fields[i]) {
            let i = choose|i: int| 0 <= i < fields.len() && is_chunked_field(#[trigger] fields[i]);
            if i < before.len() {
                assert(is_chunked_field(before[i]));
            }
        }
    }
}

/// Where headers are inspected, a line break in a header is reported at that header, a length
/// beside chunks as smuggling, a malformed host and an unexpected body as protocol abuse; and only
/// then. Where they are not inspected nothing of this is reported.
pub proof fn law_header_abuse_reported(
    config: AppConfig,
    policy: LivePolicyState,
    known: Seq<LearnedRouteView>,
    hits: u64,
    schemas: Seq<(Seq<char>, LearnedJsonSchemaView)>,
    request: RequestContext,
    h: Headers,
    name: Seq<char>,
)
    ensures
        ({
            let reported = attacks::found_in(config, policy, known, hits, schemas, request, h);
            let on = config.security.inspect_headers;
            let fields = h.entries@;
            let host = headers::field_text(h, "host"@);
            let method = text::upper_of(request.method@);
            &&& laws::names(reported, AttackClass::HeaderInjection, "header."@ + name) == (on
                && exists|i: int|
                0 <= i < fields.len() && is_split_field(#[trigger] fields[i], name))
            &&& laws::cites(reported, "smuggling.cl_te"@, "header.transfer-encoding"@) == (on
                && headers::has_field(h, "content-length"@) && exists|i: int|
                0 <= i < fields.len() && is_chunked_field(#[trigger] fields[i]))
            &&& laws::cites(reported, "UZ-PROTO-002"@, "request.headers.host"@) == (on && host is Some
                && (host->0.contains('@') || host->0.contains('\\') || text::byte_len_of(host->0)
                > 255 || (text::count_of(host->0, ':') >= 2 && !text::has_prefix(host->0, "["@))))
            &&& laws::cites(reported, "UZ-PROTO-003"@, "request.method"@) == (on && (method == "GET"@
                || method == "HEAD"@) && request.body_preview is Some
                && request.body_preview->0@.len() > 0)
        }),
{
    attacks::lemma_reported_by_class(config, policy, known, hits, schemas, request, h);
    sources::lemma_protocol_rules();
    lemma_header_named(
        policy,
        request.path@,
        h,
        text::upper_of(request.method@),
        request.body_preview.deep_view(),
        name,
    );
}

proof fn lemma_header_named(
    policy: LivePolicyState,
    path: Seq<char>,
    h: Headers,
    method: Seq<char>,
    body: Option<Seq<char>>,
    name: Seq<char>,
)
    ensures
        ({
            let found = detectors::header_findings(policy, path, h, method, body);
            let fields = h.entries@;
            let host = headers::field_text(h, "host"@);
            &&& laws::names(found, AttackClass::HeaderInjection, "header."@ + name) == exists|i: int|
                0 <= i < fields.len() && is_split_field(#[trigger] fields[i], name)
            &&& laws::cites(found, "smuggling.cl_te"@, "header.transfer-encoding"@) == (
            headers::has_field(h, "content-length"@) && exists|i: int|
                0 <= i < fields.len() && is_chunked_field(#[trigger] fields[i]))
            &&& laws::cites(found, "UZ-PROTO-002"@, "request.headers.host"@) == (host is Some && (
            host->0.contains('@') || host->0.contains('\\') || text::byte_len_of(host->0) > 255 || (
            text::count_of(host->0, ':') >= 2 && !text::has_prefix(host->0, "["@))))
            &&& laws::cites(found, "UZ-PROTO-003"@, "request.method"@) == ((method == "GET"@ || method
                == "HEAD"@) && body is Some && body->0.len() > 0)
        }),
{
    broadcast use laws::group_findings;

    lemma_fields_named(policy, path, h, h.entries@, name);
    lemma_fields_rules(policy, path, h, h.entries@);
    reveal_strlit("header.");
    reveal_strlit("UZ-PROTO-002");
    reveal_strlit("UZ-PROTO-003");
    reveal_strlit("smuggling.cl_te");
    assert("UZ-PROTO-002"@[11] == '2');
    assert("UZ-PROTO-003"@[11] == '3');
    assert("smuggling.cl_te"@.len() != "UZ-PROTO-002"@.len());
}

proof fn lemma_fields_rules(
    policy: LivePolicyState,
    path: Seq<char>,
    h: Headers,
    fields: Seq<Header>,
)
    ensures
        forall|rule_id: Seq<char>, location: Seq<char>|
            rule_id != "header.crlf"@ && rule_id != "smuggling.cl_te"@ ==> !#[trigger] laws::cites(
                detectors::fields_findings(policy, path, h, fields),
                rule_id,
                location,
            ),
        !laws::cites(
            detectors::fields_findings(policy, path, h, fields),
            "UZ-PROTO-002"@,
            "request.headers.host"@,
        ),
        !laws::cites(
            detectors::fields_findings(policy, path, h, fields),
            "UZ-PROTO-003"@,
            "request.method"@,
        ),
    decreases fields.len(),
{
    broadcast use laws::group_findings;

    reveal_strlit("UZ-PROTO-002");
    reveal_strlit("UZ-PROTO-003");
    reveal_strlit("header.crlf");
    reveal_strlit("smuggling.cl_te");
    assert("UZ-PROTO-002"@[0] == 'U');
    assert("UZ-PROTO-003"@[0] == 'U');
    assert("header.crlf"@[0] == 'h');
    assert("smuggling.cl_te"@[0] == 's');
    if fields.len() > 0 {
        lemma_fields_rules(policy, path, h, fields.drop_last());
    }
}

/// The parts of the bearer token of a request, if it has one.
pub open spec fn token_parts(h: Headers) -> Option<Seq<Seq<char>>> {
    match headers::field_text(h, "authorization"@) {
        Some(value) => if text::has_prefix(value, "Bearer "@) {
            Some(text::split_of(value.skip(7), '.'))
        } else {
            None
        },
        None => None,
    }
}

/// A segment of a token as JSON.
pub open spec fn segment_json(segment: Seq<char>) -> Option<JsonNodeView> {
    match crate::outside::base64url_decoded(segment) {
        Some(bytes) => crate::outside::json_parsed(bytes),
        None => None,
    }
}

/// The text of a member of an object, where it has one and it is a text.
pub open spec fn member_text(n: JsonNodeView, name: Seq<char>) -> Option<Seq<char>> {
    match json::member_of(n, name) {
        Some(v) => match v.value {
            JsonView::Text(s) => Some(s),
            _ => None,
        },
        None => None,
    }
}

/// Whether the claims of a token name an audience, as the only one or among others.
pub open spec fn names_audience(payload: JsonNodeView, audience: Seq<char>) -> bool {
    match json::member_of(payload, "aud"@) {
        Some(v) => match v.value {
            JsonView::Text(s) => s == audience,
            JsonView::Array(items) => exists|i: int|
                0 <= i < items.len() && (#[trigger] items[i]).value == JsonView::Text(audience),
            _ => false,
        },
        None => false,
    }
}

/// Whether the claims of a token grant a scope: in a list, else among words.
pub open spec fn grants(payload: JsonNodeView, scope: Seq<char>) -> bool {
    match json::member_of(payload, "scopes"@) {
        Some(v) if v.value is Array => exists|i: int|
            0 <= i < v.value->Array_0.len() && (#[trigger] v.value->Array_0[i]).value
                == JsonView::Text(scope),
        _ => match member_text(payload, "scope"@) {
            Some(s) => text::words_of(s).contains(scope),
            None => false,
        },
    }
}

proof fn lemma_texts(items: Seq<JsonNodeView>, v: Seq<char>)
    ensures
        tokens::texts_of(items).contains(v) == exists|i: int|
            0 <= i < items.len() && (#[trigger] items[i]).value == JsonView::Text(v),
    decreases items.len(),
{
    if items.len() > 0 {
        let before = items.drop_last();
        lemma_texts(before, v);
        let all = tokens::texts_of(items);
        let some = tokens::texts_of(before);
        assert(forall|i: int| 0 <= i < before.len() ==> #[trigger] before[i] == items[i]);
        if some.contains(v) {
            let i = choose|i: int| 0 <= i < some.len() && some[i] == v;
            assert(all[i] == v);
        }
        if items.last().value == JsonView::Text(v) {
            assert(items[items.len() - 1].value == JsonView::Text(v));
            assert(all[all.len() - 1] == v);
        }
        if all.contains(v) && !some.contains(v) {
            let i = choose|i: int| 0 <= i < all.len() && all[i] == v;
            if i < some.len() {
                assert(some[i] == v);
            }
        }
        if exists|i: int| 0 <= i < items.len() && (#[trigger] items[i]).value == JsonView::Text(v) {
            let i = choose|i: int|
                0 <= i < items.len() && (#[trigger] items[i]).value == JsonView::Text(v);
            if i < before.len() {
                assert(before[i].value == JsonView::Text(v));
            }
        }
        if exists|i: int| 0 <= i < before.len() && (#[trigger] before[i]).value == JsonView::Text(
            v,
        ) {
            let i = choose|i: int|
                0 <= i < before.len() && (#[trigger] before[i]).value == JsonView::Text(v);
            assert(items[i].value == JsonView::Text(v));
        }
    }
}

proof fn lemma_lacking(required: Seq<Seq<char>>, granted: Seq<Seq<char>>)
    ensures
        tokens::lacking(required, granted).len() > 0 <==> exists|i: int|
            0 <= i < required.len() && !granted.contains(#[trigger] required[i]),
    decreases required.len(),
{
    if required.len() > 0 {
        let before = required.drop_last();
        lemma_lacking(before, granted);
        assert(forall|i: int| 0 <= i < before.len() ==> #[trigger] before[i] == required[i]);
        assert(required.last() == required[required.len() - 1]);
        if exists|i: int| 0 <= i < required.len() && !granted.contains(#[trigger] required[i]) {
            let i = choose|i: int|
                0 <= i < required.len() && !granted.contains(#[trigger] required[i]);
            if i < before.len() {
                assert(!granted.contains(before[i]));
            }
        }
        if exists|i: int| 0 <= i < before.len() && !granted.contains(#[trigger] before[i]) {
            let i = choose|i: int| 0 <= i < before.len() && !granted.contains(#[trigger] before[i]);
            assert(!granted.contains(required[i]));
        }
    }
}

proof fn lemma_grants(payload: JsonNodeView, scope: Seq<char>)
    ensures
        tokens::scopes_of(payload).contains(scope) == grants(payload, scope),
{
    match json::member_of(payload, "scopes"@) {
        Some(v) => {
            if v.value is Array {
                lemma_texts(v.value->Array_0, scope);
            }
        },
        None => {},
    }
}

/// A bearer token that is not three segments of JSON in base64url is reported. Of one that is, a
/// missing signature, another issuer, another audience and missing scopes are reported, each where
/// the configuration asks for it; and nothing of this is reported otherwise.
pub proof fn law_tokens_reported(
    config: AppConfig,
    policy: LivePolicyState,
    known: Seq<LearnedRouteView>,
    hits: u64,
    schemas: Seq<(Seq<char>, LearnedJsonSchemaView)>,
    request: RequestContext,
    h: Headers,
)
    ensures
        ({
            let reported = attacks::found_in(config, policy, known, hits, schemas, request, h);
            let parts = token_parts(h);
            let on = config.jwt.enabled && parts is Some;
            let whole = on && parts->0.len() == 3;
            let header = segment_json(parts->0[0]);
            let payload = segment_json(parts->0[1]);
            let read = whole && header is Some && payload is Some;
            let required = inspection::scopes_required(config, request);
            &&& laws::cites(
                reported,
                "jwt.invalid_structure"@,
                "request.headers.authorization"@,
            ) == (on && !whole)
            &&& laws::cites(reported, "jwt.invalid_encoding"@, "jwt.header"@) == (whole && header is None)
            &&& laws::cites(reported, "jwt.invalid_encoding"@, "jwt.payload"@) == (whole
                && header is Some && payload is None)
            &&& laws::cites(reported, "jwt.alg_none"@, "jwt.header.alg"@) == (read
                && config.jwt.reject_alg_none && member_text(header->0, "alg"@) is Some
                && text::lower_of(member_text(header->0, "alg"@)->0) == "none"@)
            &&& laws::cites(reported, "jwt.invalid_issuer"@, "jwt.claims.iss"@) == (read
                && config.jwt.expected_issuer is Some && (match member_text(payload->0, "iss"@) {
                Some(iss) => iss,
                None => ""@,
            }) != config.jwt.expected_issuer->0@)
            &&& laws::cites(reported, "jwt.invalid_audience"@, "jwt.claims.aud"@) == (read
                && config.jwt.expected_audience is Some && !names_audience(
                payload->0,
                config.jwt.expected_audience->0@,
            ))
            &&& laws::cites(reported, "jwt.missing_scope"@, "jwt.claims.scope"@) == (read && exists|
                i: int,
            |
                0 <= i < required.len() && !grants(payload->0, #[trigger] required[i]))
        }),
{
    attacks::lemma_reported_by_class(config, policy, known, hits, schemas, request, h);
    sources::lemma_token_rules();
    lemma_tokens_named(
        config,
        policy,
        request.path@,
        inspection::scopes_required(config, request),
        h,
    );
}

proof fn lemma_tokens_named(
    config: AppConfig,
    policy: LivePolicyState,
    path: Seq<char>,
    required: Seq<Seq<char>>,
    h: Headers,
)
    ensures
        ({
            let found = tokens::token_findings(config, policy, path, required, h);
            let parts = token_parts(h);
            let on = config.jwt.enabled && parts is Some;
            let whole = on && parts->0.len() == 3;
            let header = segment_json(parts->0[0]);
            let payload = segment_json(parts->0[1]);
            let read = whole && header is Some && payload is Some;
            &&& laws::cites(found, "jwt.invalid_structure"@, "request.headers.authorization"@) == (on
                && !whole)
            &&& laws::cites(found, "jwt.invalid_encoding"@, "jwt.header"@) == (whole && header is None)
            &&& laws::cites(found, "jwt.invalid_encoding"@, "jwt.payload"@) == (whole
                && header is Some && payload is None)
            &&& laws::cites(found, "jwt.alg_none"@, "jwt.header.alg"@) == (read
                && config.jwt.reject_alg_none && member_text(header->0, "alg"@) is Some
                && text::lower_of(member_text(header->0, "alg"@)->0) == "none"@)
            &&& laws::cites(found, "jwt.invalid_issuer"@, "jwt.claims.iss"@) == (read
                && config.jwt.expected_issuer is Some && (match member_text(payload->0, "iss"@) {
                Some(iss) => iss,
                None => ""@,
            }) != config.jwt.expected_issuer->0@)
            &&& laws::cites(found, "jwt.invalid_audience"@, "jwt.claims.aud"@) == (read
                && config.jwt.expected_audience is Some && !names_audience(
                payload->0,
                config.jwt.expected_audience->0@,
            ))
            &&& laws::cites(found, "jwt.missing_scope"@, "jwt.claims.scope"@) == (read && exists|
                i: int,
            |
                0 <= i < required.len() && !grants(payload->0, #[trigger] required[i]))
        }),
{
    broadcast use laws::group_findings;

    reveal_strlit("Bearer ");
    reveal_strlit("none");
    reveal_strlit("jwt.alg_none");
    reveal_strlit("jwt.invalid_issuer");
    reveal_strlit("jwt.invalid_audience");
    reveal_strlit("jwt.missing_scope");
    reveal_strlit("jwt.invalid_encoding");
    reveal_strlit("jwt.invalid_structure");
    reveal_strlit("jwt.header");
    reveal_strlit("jwt.payload");
    assert("jwt.alg_none"@.len() == 12);
    assert("jwt.invalid_issuer"@.len() == 18);
    assert("jwt.invalid_audience"@.len() == 20 && "jwt.invalid_audience"@[12] == 'a');
    assert("jwt.missing_scope"@.len() == 17);
    assert("jwt.invalid_encoding"@.len() == 20 && "jwt.invalid_encoding"@[12] == 'e');
    assert("jwt.invalid_structure"@.len() == 21);
    assert("jwt.header"@.len() != "jwt.payload"@.len());
    assert(text::lower_of("none"@) =~= "none"@);
    let parts = token_parts(h);
    if parts is Some && parts->0.len() == 3 {
        let payload = segment_json(parts->0[1]);
        if payload is Some {
            let granted = tokens::scopes_of(payload->0);
            lemma_lacking(required, granted);
            assert forall|i: int| 0 <= i < required.len() implies granted.contains(
                #[trigger] required[i],
            ) == grants(payload->0, required[i]) by {
                lemma_grants(payload->0, required[i]);
            }
            if config.jwt.expected_audience is Some {
                match json::member_of(payload->0, "aud"@) {
                    Some(v) => match v.value {
                        JsonView::Array(items) => {
                            lemma_texts(items, config.jwt.expected_audience->0@);
                        },
                        _ => {},
                    },
                    None => {},
                }
            }
        }
    }
}

pub(crate) proof fn lemma_distinct(s: Seq<Seq<char>>)
    ensures
        text::distinct_of(s).no_duplicates(),
        forall|v: Seq<char>| #[trigger] text::distinct_of(s).contains(v) == s.contains(v),
    decreases s.len(),
{
    if s.len() > 0 {
        let before = s.drop_last();
        lemma_distinct(before);
        let some = text::distinct_of(before);
        let all = text::distinct_of(s);
        assert forall|v: Seq<char>| #[trigger] all.contains(v) == s.contains(v) by {
            assert(some.contains(v) == before.contains(v));
            if some.contains(v) {
                let i = choose|i: int| 0 <= i < some.len() && some[i] == v;
                assert(all[i] == v);
                let j = choose|j: int| 0 <= j < before.len() && before[j] == v;
                assert(s[j] == v);
            }
            if v == s.last() {
                assert(s[s.len() - 1] == v);
                if !some.contains(v) {
                    assert(all[all.len() - 1] == v);
                }
            }
            if all.contains(v) {
                let i = choose|i: int| 0 <= i < all.len() && all[i] == v;
                if i < some.len() {
                    assert(some[i] == v);
                }
            }
            if s.contains(v) && v != s.last() {
                let i = choose|i: int| 0 <= i < s.len() && s[i] == v;
                assert(before[i] == v);
            }
        }
        if !some.contains(s.last()) {
            assert forall|i: int, j: int| 0 <= i < j < all.len() implies all[i] != all[j] by {
                if j == some.len() {
                    assert(some.contains(some[i]));
                }
            }
        }
    }
}

/// Whether a list holds three different texts.
pub open spec fn has_three(s: Seq<Seq<char>>) -> bool {
    exists|i: int, j: int, k: int|
        0 <= i < s.len() && 0 <= j < s.len() && 0 <= k < s.len() && #[trigger] s[i] != #[trigger] s[j]
            && s[i] != #[trigger] s[k] && s[j] != s[k]
}

proof fn lemma_three(s: Seq<Seq<char>>)
    ensures
        text::distinct_of(s).len() >= 3 <==> has_three(s),
{
    lemma_distinct(s);
    let d = text::distinct_of(s);
    if d.len() >= 3 {
        assert(d.contains(d[0]) && d.contains(d[1]) && d.contains(d[2]));
        let i = choose|i: int| 0 <= i < s.len() && s[i] == d[0];
        let j = choose|j: int| 0 <= j < s.len() && s[j] == d[1];
        let k = choose|k: int| 0 <= k < s.len() && s[k] == d[2];
        assert(s.contains(d[0]) && s.contains(d[1]) && s.contains(d[2]));
        assert(s[i] != s[j] && s[i] != s[k] && s[j] != s[k]);
    }
    if has_three(s) {
        let (i, j, k) = choose|i: int, j: int, k: int|
            0 <= i < s.len() && 0 <= j < s.len() && 0 <= k < s.len() && #[trigger] s[i]
                != #[trigger] s[j] && s[i] != #[trigger] s[k] && s[j] != s[k];
        assert(s.contains(s[i]) && s.contains(s[j]) && s.contains(s[k]));
        assert(d.contains(s[i]) && d.contains(s[j]) && d.contains(s[k]));
        let a = choose|a: int| 0 <= a < d.len() && d[a] == s[i];
        let b = choose|b: int| 0 <= b < d.len() && d[b] == s[j];
        let c = choose|c: int| 0 <= c < d.len() && d[c] == s[k];
        assert(a != b && a != c && b != c);
    }
}

/// A request that names three different objects or more, and one that is made for one tenant and
/// about another, is reported; and only such a request.
pub proof fn law_object_abuse_reported(
    config: AppConfig,
    policy: LivePolicyState,
    known: Seq<LearnedRouteView>,
    hits: u64,
    schemas: Seq<(Seq<char>, LearnedJsonSchemaView)>,
    request: RequestContext,
    h: Headers,
)
    ensures
        ({
            let reported = attacks::found_in(config, policy, known, hits, schemas, request, h);
            let acting = inspection::acting_tenant(h);
            let owner = detectors::tenant_hint_of(request);
            &&& laws::names(reported, AttackClass::ObjectEnumeration, "request.object_ids"@)
                == has_three(identity::object_ids_of(request))
            &&& laws::names(
                reported,
                AttackClass::TenantBoundaryViolation,
                "request.tenant_context"@,
            ) == (acting is Some && owner is Some && acting != owner)
        }),
{
    broadcast use laws::group_findings;

    attacks::lemma_reported_by_class(config, policy, known, hits, schemas, request, h);
    lemma_three(identity::object_ids_of(request));
}

/// The objects that a request names are the path segments that are numbers or long enough names,
/// the values of the query parameters whose names end in `id`, and those of the body fields whose
/// names do in any case.
pub proof fn law_object_ids(request: RequestContext, v: Seq<char>)
    ensures
        ({
            let segments = text::split_of(request.path@, '/');
            let params = identity::query_table(request.query.deep_view());
            let fields = request.parsed_body_fields.deep_view();
            identity::object_ids_of(request).contains(v) == {
                ||| segments.contains(v) && ((v.len() > 0 && forall|i: int|
                    0 <= i < v.len() ==> '0' <= #[trigger] v[i] <= '9') || (v.len() >= 8
                    && routes::all_hex(v)) || (v.len() >= 16 && routes::all_word(v)) || (v.len()
                    == 36 && routes::all_hex_or_dash(v)))
                ||| exists|i: int|
                    0 <= i < params.len() && (#[trigger] params[i]).1 == v && text::has_suffix(
                        params[i].0,
                        "id"@,
                    )
                ||| exists|i: int|
                    0 <= i < fields.len() && (#[trigger] fields[i]).value_preview == v
                        && text::has_suffix(text::lower_of(fields[i].key), "id"@)
            }
        }),
{
    let segments = text::split_of(request.path@, '/');
    let params = identity::query_table(request.query.deep_view());
    let fields = request.parsed_body_fields.deep_view();
    lemma_path_ids(segments, v);
    lemma_parameter_ids(params, v);
    lemma_field_ids(fields, v);
    let a = identity::path_ids(segments);
    let b = identity::parameter_ids(params);
    let c = identity::field_ids(fields);
    let all = a + b + c;
    assert(identity::object_ids_of(request) == all);
    if a.contains(v) {
        let i = choose|i: int| 0 <= i < a.len() && a[i] == v;
        assert(all[i] == v);
    }
    if b.contains(v) {
        let i = choose|i: int| 0 <= i < b.len() && b[i] == v;
        assert(all[a.len() + i] == v);
    }
    if c.contains(v) {
        let i = choose|i: int| 0 <= i < c.len() && c[i] == v;
        assert(all[a.len() + b.len() + i] == v);
    }
    if all.contains(v) {
        let i = choose|i: int| 0 <= i < all.len() && all[i] == v;
        if i < a.len() {
            assert(a[i] == v);
        } else if i < a.len() + b.len() {
            assert(b[i - a.len()] == v);
        } else {
            assert(c[i - a.len() - b.len()] == v);
        }
    }
    assert(routes::is_id_segment(v) == ((v.len() > 0 && forall|i: int|
        0 <= i < v.len() ==> '0' <= #[trigger] v[i] <= '9') || (v.len() >= 8 && routes::all_hex(v))
        || (v.len() >= 16 && routes::all_word(v)) || (v.len() == 36 && routes::all_hex_or_dash(v)))) by {
        if v.len() > 0 && forall|i: int| 0 <= i < v.len() ==> '0' <= #[trigger] v[i] <= '9' {
            assert forall|i: int| 0 <= i < v.len() implies text::is_digit_char(#[trigger] v[i]) by {}
        }
        if text::all_digits(v) {
            assert forall|i: int| 0 <= i < v.len() implies '0' <= #[trigger] v[i] <= '9' by {
                assert(text::is_digit_char(v[i]));
            }
        }
    }
}

proof fn lemma_path_ids(parts: Seq<Seq<char>>, v: Seq<char>)
    ensures
        identity::path_ids(parts).contains(v) == (parts.contains(v) && routes::is_id_segment(v)),
    decreases parts.len(),
{
    if parts.len() > 0 {
        let before = parts.drop_last();
        lemma_path_ids(before, v);
        lemma_grown(
            identity::path_ids(before),
            identity::path_ids(parts),
            parts.last(),
            routes::is_id_segment(parts.last()),
            v,
        );
        lemma_grown(before, parts, parts.last(), true, v);
        assert(before.push(parts.last()) =~= parts);
    }
}

proof fn lemma_grown(
    before: Seq<Seq<char>>,
    after: Seq<Seq<char>>,
    last: Seq<char>,
    kept: bool,
    v: Seq<char>,
)
    requires
        after =~= (if kept {
            before.push(last)
        } else {
            before
        }),
    ensures
        after.contains(v) == (before.contains(v) || (kept && v == last)),
{
    if before.contains(v) {
        let i = choose|i: int| 0 <= i < before.len() && before[i] == v;
        assert(after[i] == v);
    }
    if kept && v == last {
        assert(after[after.len() - 1] == v);
    }
    if after.contains(v) {
        let i = choose|i: int| 0 <= i < after.len() && after[i] == v;
        if i < before.len() {
            assert(before[i] == v);
        }
    }
}

proof fn lemma_parameter_ids(params: Seq<(Seq<char>, Seq<char>)>, v: Seq<char>)
    ensures
        identity::parameter_ids(params).contains(v) == exists|i: int|
            0 <= i < params.len() && (#[trigger] params[i]).1 == v && text::has_suffix(
                params[i].0,
                "id"@,
            ),
    decreases params.len(),
{
    if params.len() > 0 {
        let before = params.drop_last();
        lemma_parameter_ids(before, v);
        let p = params.last();
        lemma_grown(
            identity::parameter_ids(before),
            identity::parameter_ids(params),
            p.1,
            text::has_suffix(p.0, "id"@),
            v,
        );
        assert(p == params[params.len() - 1]);
        assert(forall|i: int| 0 <= i < before.len() ==> #[trigger] before[i] == params[i]);
        if exists|i: int|
            0 <= i < params.len() && (#[trigger] params[i]).1 == v && text::has_suffix(
                params[i].0,
                "id"@,
            ) {
            let i = choose|i: int|
                0 <= i < params.len() && (#[trigger] params[i]).1 == v && text::has_suffix(
                    params[i].0,
                    "id"@,
                );
            if i < before.len() {
                assert(before[i].1 == v);
            }
        }
        if exists|i: int|
            0 <= i < before.len() && (#[trigger] before[i]).1 == v && text::has_suffix(
                before[i].0,
                "id"@,
            ) {
            let i = choose|i: int|
                0 <= i < before.len() && (#[trigger] before[i]).1 == v && text::has_suffix(
                    before[i].0,
                    "id"@,
                );
            assert(params[i].1 == v);
        }
    }
}

proof fn lemma_field_ids(fields: Seq<ParsedBodyFieldView>, v: Seq<char>)
    ensures
        identity::field_ids(fields).contains(v) == exists|i: int|
            0 <= i < fields.len() && (#[trigger] fields[i]).value_preview == v && text::has_suffix(
                text::lower_of(fields[i].key),
                "id"@,
            ),
    decreases fields.len(),
{
    if fields.len() > 0 {
        let before = fields.drop_last();
        lemma_field_ids(before, v);
        let f = fields.last();
        lemma_grown(
            identity::field_ids(before),
            identity::field_ids(fields),
            f.value_preview,
            text::has_suffix(text::lower_of(f.key), "id"@),
            v,
        );
        assert(f == fields[fields.len() - 1]);
        assert(forall|i: int| 0 <= i < before.len() ==> #[trigger] before[i] == fields[i]);
        if exists|i: int|
            0 <= i < fields.len() && (#[trigger] fields[i]).value_preview == v && text::has_suffix(
                text::lower_of(fields[i].key),
                "id"@,
            ) {
            let i = choose|i: int|
                0 <= i < fields.len() && (#[trigger] fields[i]).value_preview == v
                    && text::has_suffix(text::lower_of(fields[i].key), "id"@);
            if i < before.len() {
                assert(before[i].value_preview == v);
            }
        }
        if exists|i: int|
            0 <= i < before.len() && (#[trigger] before[i]).value_preview == v && text::has_suffix(
                text::lower_of(before[i].key),
                "id"@,
            ) {
            let i = choose|i: int|
                0 <= i < before.len() && (#[trigger] before[i]).value_preview == v
                    && text::has_suffix(text::lower_of(before[i].key), "id"@);
            assert(fields[i].value_preview == v);
        }
    }
}

/// Whether a body field names a tenant.
pub open spec fn is_tenant_field(f: ParsedBodyFieldView) -> bool {
    let key = text::lower_of(f.key);
    key == "tenant"@ || text::has_suffix(key, "tenant_id"@)
}

/// The tenant that owns what a request is about is named by the first body field that names one,
/// else by the first path segment that starts with `tenant_`.
pub proof fn law_tenant_hint(request: RequestContext)
    ensures
        ({
            let fields = request.parsed_body_fields.deep_view();
            let segments = text::split_of(request.path@, '/');
            let in_body = exists|i: int| 0 <= i < fields.len() && is_tenant_field(#[trigger] fields[i]);
            let in_path = exists|i: int|
                0 <= i < segments.len() && text::has_prefix(#[trigger] segments[i], "tenant_"@);
            let hint = detectors::tenant_hint_of(request);
            &&& (hint is Some) == (in_body || in_path)
            &&& in_body ==> exists|i: int|
                0 <= i < fields.len() && is_tenant_field(#[trigger] fields[i]) && hint == Some(
                    fields[i].value_preview,
                ) && forall|j: int| 0 <= j < i ==> !is_tenant_field(#[trigger] fields[j])
            &&& !in_body && in_path ==> exists|i: int|
                0 <= i < segments.len() && text::has_prefix(#[trigger] segments[i], "tenant_"@)
                    && hint == Some(segments[i]) && forall|j: int|
                    0 <= j < i ==> !text::has_prefix(#[trigger] segments[j], "tenant_"@)
        }),
{
    lemma_tenant_field(request.parsed_body_fields.deep_view());
    lemma_tenant_segment(text::split_of(request.path@, '/'));
}

proof fn lemma_tenant_field(fields: Seq<ParsedBodyFieldView>)
    ensures
        match detectors::tenant_field(fields) {
            Some(v) => exists|i: int|
                0 <= i < fields.len() && is_tenant_field(#[trigger] fields[i])
                    && v == fields[i].value_preview && forall|j: int|
                    0 <= j < i ==> !is_tenant_field(#[trigger] fields[j]),
            None => forall|i: int|
                0 <= i < fields.len() ==> !is_tenant_field(#[trigger] fields[i]),
        },
    decreases fields.len(),
{
    reveal_strlit("tenant_id");
    assert("tenant_id"@.skip(0) =~= "tenant_id"@);
    if fields.len() > 0 {
        let key = text::lower_of(fields[0].key);
        if key == "tenant_id"@ {
            assert(text::has_suffix(key, "tenant_id"@));
        }
        assert(detectors::names_tenant(key) == is_tenant_field(fields[0]));
        let rest = fields.drop_first();
        lemma_tenant_field(rest);
        if !is_tenant_field(fields[0]) {
            match detectors::tenant_field(rest) {
                Some(v) => {
                    let i = choose|i: int|
                        0 <= i < rest.len() && is_tenant_field(#[trigger] rest[i]) && v
                            == rest[i].value_preview && forall|j: int|
                            0 <= j < i ==> !is_tenant_field(#[trigger] rest[j]);
                    assert(fields[i + 1] == rest[i]);
                    assert forall|j: int| 0 <= j < i + 1 implies !is_tenant_field(
                        #[trigger] fields[j],
                    ) by {
                        if j > 0 {
                            assert(fields[j] == rest[j - 1]);
                        }
                    }
                },
                None => {
                    assert forall|j: int| 0 <= j < fields.len() implies !is_tenant_field(
                        #[trigger] fields[j],
                    ) by {
                        if j > 0 {
                            assert(fields[j] == rest[j - 1]);
                        }
                    }
                },
            }
        } else {
            assert(is_tenant_field(fields[0]));
        }
    }
}

proof fn lemma_tenant_segment(parts: Seq<Seq<char>>)
    ensures
        match detectors::tenant_segment(parts) {
            Some(v) => exists|i: int|
                0 <= i < parts.len() && text::has_prefix(#[trigger] parts[i], "tenant_"@) && v
                    == parts[i] && forall|j: int|
                    0 <= j < i ==> !text::has_prefix(#[trigger] parts[j], "tenant_"@),
            None => forall|i: int|
                0 <= i < parts.len() ==> !text::has_prefix(#[trigger] parts[i], "tenant_"@),
        },
    decreases parts.len(),
{
    if parts.len() > 0 {
        let rest = parts.drop_first();
        lemma_tenant_segment(rest);
        if !text::has_prefix(parts[0], "tenant_"@) {
            match detectors::tenant_segment(rest) {
                Some(v) => {
                    let i = choose|i: int|
                        0 <= i < rest.len() && text::has_prefix(#[trigger] rest[i], "tenant_"@) && v
                            == rest[i] && forall|j: int|
                            0 <= j < i ==> !text::has_prefix(#[trigger] rest[j], "tenant_"@);
                    assert(parts[i + 1] == rest[i]);
                    assert forall|j: int| 0 <= j < i + 1 implies !text::has_prefix(
                        #[trigger] parts[j],
                        "tenant_"@,
                    ) by {
                        if j > 0 {
                            assert(parts[j] == rest[j - 1]);
                        }
                    }
                },
                None => {
                    assert forall|j: int| 0 <= j < parts.len() implies !text::has_prefix(
                        #[trigger] parts[j],
                        "tenant_"@,
                    ) by {
                        if j > 0 {
                            assert(parts[j] == rest[j - 1]);
                        }
                    }
                },
            }
        } else {
            assert(text::has_prefix(parts[0], "tenant_"@));
        }
    }
}

/// Whether a parameter asks for more than a thousand items.
pub open spec fn asks_for_many(p: (Seq<char>, Seq<char>)) -> bool {
    let n = text::parsed_uint(p.1, usize::MAX as nat);
    (p.0 == "limit"@ || p.0 == "page_size"@ || p.0 == "per_page"@ || p.0 == "take"@) && n is Some
        && n->0 > 1_000
}

proof fn lemma_pagination_named(
    policy: LivePolicyState,
    path: Seq<char>,
    pairs: Seq<(Seq<char>, Seq<char>)>,
    name: Seq<char>,
)
    ensures
        ({
            let found = detectors::pagination_findings(policy, path, pairs);
            &&& laws::cites(found, "UZ-API-RESOURCE-003"@, "query."@ + name) == exists|i: int|
                0 <= i < pairs.len() && (#[trigger] pairs[i]).0 == name && asks_for_many(pairs[i])
            &&& !laws::cites(found, "UZ-API-RESOURCE-001"@, "request.query"@)
            &&& !laws::cites(found, "UZ-API-RESOURCE-002"@, "request.headers.content-length"@)
        }),
    decreases pairs.len(),
{
    broadcast use laws::group_findings;

    reveal_strlit("query.");
    reveal_strlit("UZ-API-RESOURCE-001");
    reveal_strlit("UZ-API-RESOURCE-002");
    reveal_strlit("UZ-API-RESOURCE-003");
    assert("UZ-API-RESOURCE-001"@[18] == '1');
    assert("UZ-API-RESOURCE-002"@[18] == '2');
    assert("UZ-API-RESOURCE-003"@[18] == '3');
    if pairs.len() > 0 {
        let before = pairs.drop_last();
        let p = pairs.last();
        lemma_pagination_named(policy, path, before, name);
        assert(p == pairs[pairs.len() - 1]);
        assert(("query."@ + p.0).skip(6) =~= p.0);
        assert(("query."@ + name).skip(6) =~= name);
        assert(forall|i: int| 0 <= i < before.len() ==> #[trigger] before[i] == pairs[i]);
        if exists|i: int|
            0 <= i < pairs.len() && (#[trigger] pairs[i]).0 == name && asks_for_many(pairs[i]) {
            let i = choose|i: int|
                0 <= i < pairs.len() && (#[trigger] pairs[i]).0 == name && asks_for_many(pairs[i]);
            if i < before.len() {
                assert(before[i].0 == name);
            }
        }
        if exists|i: int|
            0 <= i < before.len() && (#[trigger] before[i]).0 == name && asks_for_many(before[i]) {
            let i = choose|i: int|
                0 <= i < before.len() && (#[trigger] before[i]).0 == name && asks_for_many(
                    before[i],
                );
            assert(pairs[i].0 == name);
        }
    }
}

/// Too many parameters, a body that is declared larger than the limit, and a page of more than a
/// thousand items are reported; and only these.
pub proof fn law_resource_abuse_reported(
    config: AppConfig,
    policy: LivePolicyState,
    known: Seq<LearnedRouteView>,
    hits: u64,
    schemas: Seq<(Seq<char>, LearnedJsonSchemaView)>,
    request: RequestContext,
    h: Headers,
    name: Seq<char>,
)
    ensures
        ({
            let reported = attacks::found_in(config, policy, known, hits, schemas, request, h);
            let n = normalization::normalized_of(request, h, detection::limits_of(config));
            let size = match headers::field_text(h, "content-length"@) {
                Some(v) => text::parsed_uint(v, usize::MAX as nat),
                None => None,
            };
            &&& laws::cites(reported, "UZ-API-RESOURCE-001"@, "request.query"@) == (
            n.query_param_count > config.discovery.max_query_params)
            &&& laws::cites(
                reported,
                "UZ-API-RESOURCE-002"@,
                "request.headers.content-length"@,
            ) == (size is Some && size->0 > config.proxy.max_body_bytes)
            &&& laws::cites(reported, "UZ-API-RESOURCE-003"@, "query."@ + name) == exists|i: int|
                0 <= i < n.query_pairs.len() && (#[trigger] n.query_pairs[i]).0 == name
                    && asks_for_many(n.query_pairs[i])
        }),
{
    broadcast use laws::group_findings;

    let n = normalization::normalized_of(request, h, detection::limits_of(config));
    attacks::lemma_reported_by_class(config, policy, known, hits, schemas, request, h);
    sources::lemma_protocol_rules();
    lemma_pagination_named(policy, request.path@, n.query_pairs, name);
    reveal_strlit("UZ-API-RESOURCE-001");
    reveal_strlit("UZ-API-RESOURCE-002");
    reveal_strlit("UZ-API-RESOURCE-003");
    assert("UZ-API-RESOURCE-001"@[18] == '1');
    assert("UZ-API-RESOURCE-002"@[18] == '2');
    assert("UZ-API-RESOURCE-003"@[18] == '3');
}

/// While routes are learned, the first request to a route and a request to a deprecated one are
/// reported; and only these.
pub proof fn law_inventory_reported(
    config: AppConfig,
    policy: LivePolicyState,
    known: Seq<LearnedRouteView>,
    hits: u64,
    schemas: Seq<(Seq<char>, LearnedJsonSchemaView)>,
    request: RequestContext,
    h: Headers,
)
    ensures
        ({
            let reported = attacks::found_in(config, policy, known, hits, schemas, request, h);
            let route = inventory::entry(
                known,
                types::route_key_of(request.method@, routes::route_of(request.path@)),
            );
            &&& laws::cites(reported, "UZ-API-INV-001"@, "request.route"@) == (
            config.discovery.enabled && hits == 1)
            &&& laws::cites(reported, "UZ-API-INV-004"@, "request.route"@) == (
            config.discovery.enabled && route is Some && route->0.status
                == ApiInventoryStatus::Deprecated)
        }),
{
    broadcast use laws::group_findings;

    attacks::lemma_reported_by_class(config, policy, known, hits, schemas, request, h);
    sources::lemma_protocol_rules();
    reveal_strlit("UZ-API-INV-001");
    reveal_strlit("UZ-API-INV-004");
    assert("UZ-API-INV-001"@[13] == '1');
    assert("UZ-API-INV-004"@[13] == '4');
}

} // verus!
