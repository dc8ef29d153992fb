//! Who makes a request, and what a request names.

use crate::config::AppConfig;
use crate::headers;
use crate::headers::Headers;
use crate::json;
use crate::json::{Json, JsonNode, JsonNodeView, JsonView};
use crate::net;
use crate::outside;
use crate::pairs;
use crate::routes;
use crate::text;
use crate::types::{
    AuthStatus, ParsedBodyField, ParsedBodyFieldView, PrincipalKey, PrincipalKeyView,
    RequestContext, RequestContextView, Timestamp,
};
use vstd::prelude::*;
use vstd::utf8;

verus! {

/// The payload segment of a bearer token in an authorization header.
pub open spec fn bearer_payload(value: Seq<char>) -> Option<Seq<char>> {
    match text::stripped_prefix(text::trim_of(value), "Bearer "@) {
        Some(token) => {
            let parts = text::split_of(text::trim_of(token), '.');
            if parts.len() >= 2 {
                Some(parts[1])
            } else {
                None
            }
        },
        None => None,
    }
}

pub fn payload_of_bearer(value: &str) -> (r: Option<String>)
    ensures
        r.deep_view() == bearer_payload(value@),
{
    let raw = text::trim(value);
    match text::strip_prefix(raw.as_str(), "Bearer ") {
        Some(token) => {
            let trimmed = text::trim(token.as_str());
            let parts = text::split(trimmed.as_str(), '.');
            if parts.len() >= 2 {
                assert(parts.deep_view()[1] == parts@[1]@);
                Some(parts[1].clone())
            } else {
                None
            }
        },
        None => None,
    }
}

/// A token segment as JSON: base64 without padding in the URL-safe alphabet.
pub open spec fn decoded_segment(segment: Seq<char>) -> Option<JsonNodeView> {
    match outside::base64url_decoded(segment) {
        Some(bytes) => outside::json_parsed(bytes),
        None => None,
    }
}

pub fn decode_jwt_segment(segment: &str) -> (r: Option<JsonNode>)
    ensures
        r.deep_view() == decoded_segment(segment@),
{
    match outside::base64url_decode(segment) {
        Some(bytes) => {
            assert(bytes.deep_view() =~= bytes@);
            outside::parse_json(bytes.as_slice())
        },
        None => None,
    }
}

/// The value where it is an object.
pub open spec fn only_object(n: Option<JsonNodeView>) -> Option<JsonNodeView> {
    match n {
        Some(n) => if n.value is Object {
            Some(n)
        } else {
            None
        },
        None => None,
    }
}

/// Keeps a value that is an object and drops any other.
pub fn keep_object(n: Option<JsonNode>) -> (r: Option<JsonNode>)
    ensures
        r.deep_view() == only_object(n.deep_view()),
{
    match n {
        Some(node) => {
            proof {
                json::lemma_node_view(node);
            }
            let object = match &node.value {
                Json::Object(_) => true,
                _ => false,
            };
            if object {
                Some(node)
            } else {
                None
            }
        },
        None => None,
    }
}

/// The claims of the bearer token of a request.
pub open spec fn claims_of(h: Headers) -> Option<JsonNodeView> {
    match headers::field_text(h, "authorization"@) {
        Some(value) => match bearer_payload(value) {
            Some(payload) => only_object(decoded_segment(payload)),
            None => None,
        },
        None => None,
    }
}

pub fn parse_jwt_claims(headers: &Headers) -> (r: Option<JsonNode>)
    ensures
        r.deep_view() == claims_of(*headers),
{
    match headers.get("authorization") {
        Some(value) => match payload_of_bearer(value) {
            Some(payload) => keep_object(decode_jwt_segment(payload.as_str())),
            None => None,
        },
        None => None,
    }
}

/// The first 24 hexadecimal digits of a digest.
pub fn digest_prefix(digest: &Vec<u8>) -> (r: String)
    requires
        digest@.len() >= 12,
    ensures
        r@ == outside::hex_of(digest@).take(24),
{
    let hex = outside::hex_encode(digest.as_slice());
    let x = text::chars_of(hex.as_str());
    let r = text::string_of(&x, 0, 24);
    assert(r@ =~= outside::hex_of(digest@).take(24));
    r
}

/// The name under which a secret value is known: the first 24 hexadecimal digits of its SHA-256.
pub open spec fn hashed(value: Seq<char>) -> Seq<char> {
    outside::hex_of(outside::sha256_of(utf8::encode_utf8(value))).take(24)
}

pub fn hash_value(value: &str) -> (r: String)
    ensures
        r@ == hashed(value@),
        r@.len() == 24,
{
    let digest = outside::sha256(value.as_bytes());
    digest_prefix(&digest)
}

/// The name of the API key that a request carries.
pub open spec fn api_key_name(config: AppConfig, h: Headers) -> Option<Seq<char>> {
    match headers::field_text(h, config.auth.header_name@) {
        Some(value) => Some(hashed(value)),
        None => None,
    }
}

pub fn api_key_hash_from_headers(config: &AppConfig, headers: &Headers) -> (r: Option<String>)
    ensures
        r.deep_view() == api_key_name(*config, *headers),
{
    match headers.get(config.auth.header_name.as_str()) {
        Some(value) => Some(hash_value(value)),
        None => None,
    }
}

/// The text or number that the claims hold under a name.
pub open spec fn claim(claims: Option<JsonNodeView>, name: Seq<char>) -> Option<Seq<char>> {
    match claims {
        Some(c) => json::scalar_of(json::member_of(c, name)),
        None => None,
    }
}

pub fn claim_text(claims: &Option<JsonNode>, name: &str) -> (r: Option<String>)
    ensures
        r.deep_view() == claim(claims.deep_view(), name@),
{
    match claims {
        Some(c) => json::member_string(c, name),
        None => None,
    }
}

/// Who makes a request: the tenant and user of the token, else the user of the token, else the API
/// key, else the address.
pub open spec fn principal_of(
    claims: Option<JsonNodeView>,
    api_key: Option<Seq<char>>,
    source_ip: Seq<char>,
) -> PrincipalKeyView {
    match claim(claims, "sub"@) {
        Some(sub) => match claim(claims, "tenant_id"@) {
            Some(tenant) => PrincipalKeyView::TenantUser(tenant, sub),
            None => PrincipalKeyView::JwtSub(sub),
        },
        None => match api_key {
            Some(hash) => PrincipalKeyView::ApiKeyHash(hash),
            None => PrincipalKeyView::Ip(source_ip),
        },
    }
}

/// The principal, from what the token and the API key say.
pub fn principal_from(
    claims: &Option<JsonNode>,
    api_key: Option<String>,
    source_ip: &str,
) -> (r: PrincipalKey)
    ensures
        r.deep_view() == principal_of(claims.deep_view(), api_key.deep_view(), source_ip@),
{
    let tenant = claim_text(claims, "tenant_id");
    let sub = claim_text(claims, "sub");
    match sub {
        Some(sub) => match tenant {
            Some(tenant) => PrincipalKey::TenantUser(tenant, sub),
            None => PrincipalKey::JwtSub(sub),
        },
        None => match api_key {
            Some(hash) => PrincipalKey::ApiKeyHash(hash),
            None => PrincipalKey::Ip(source_ip.to_string()),
        },
    }
}

pub fn derive_principal(
    config: &AppConfig,
    request: &RequestContext,
    headers: &Headers,
) -> (r: PrincipalKey)
    ensures
        r.deep_view() == principal_of(
            claims_of(*headers),
            api_key_name(*config, *headers),
            request.source_ip@,
        ),
{
    let claims = parse_jwt_claims(headers);
    let api_key = api_key_hash_from_headers(config, headers);
    principal_from(&claims, api_key, request.source_ip.as_str())
}

/// Whether a path starts with one of some prefixes.
pub open spec fn under_any(path: Seq<char>, prefixes: Seq<Seq<char>>) -> bool {
    exists|i: int| 0 <= i < prefixes.len() && text::has_prefix(path, #[trigger] prefixes[i])
}

fn starts_with_any(path: &str, prefixes: &Vec<String>) -> (r: bool)
    ensures
        r == under_any(path@, prefixes.deep_view()),
{
    let mut i: usize = 0;
    while i < prefixes.len()
        invariant
            i <= prefixes@.len(),
            forall|j: int|
                0 <= j < i ==> !text::has_prefix(path@, #[trigger] prefixes.deep_view()[j]),
        decreases prefixes@.len() - i,
    {
        if text::starts_with(path, prefixes[i].as_str()) {
            assert(text::has_prefix(path@, prefixes.deep_view()[i as int]));
            return true;
        }
        i = i + 1;
    }
    false
}

/// Whether a request to a path carries what its protection asks for.
pub open spec fn auth_status_of(config: AppConfig, path: Seq<char>, h: Headers) -> AuthStatus {
    if !config.auth.enabled || !under_any(path, config.auth.protected_path_prefixes.deep_view()) {
        AuthStatus::NotRequired
    } else {
        match headers::field_text(h, config.auth.header_name@) {
            None => AuthStatus::Missing,
            Some(value) => if config.auth.api_keys.deep_view().contains(value) {
                AuthStatus::Satisfied
            } else {
                AuthStatus::Invalid
            },
        }
    }
}

pub fn resolve_auth_status(config: &AppConfig, path: &str, headers: &Headers) -> (r: AuthStatus)
    ensures
        r == auth_status_of(*config, path@, *headers),
{
    if !config.auth.enabled {
        return AuthStatus::NotRequired;
    }
    if !starts_with_any(path, &config.auth.protected_path_prefixes) {
        return AuthStatus::NotRequired;
    }
    match headers.get(config.auth.header_name.as_str()) {
        None => AuthStatus::Missing,
        Some(value) => if text::list_contains(&config.auth.api_keys, value) {
            AuthStatus::Satisfied
        } else {
            AuthStatus::Invalid
        },
    }
}

/// Whether a request carries a known API key or a readable token.
pub open spec fn has_auth(config: AppConfig, h: Headers) -> bool {
    ||| match headers::field_text(h, config.auth.header_name@) {
        Some(value) => config.auth.api_keys.deep_view().contains(value),
        None => false,
    }
    ||| claims_of(h) is Some
}

pub fn has_auth_context(config: &AppConfig, headers: &Headers) -> (r: bool)
    ensures
        r == has_auth(*config, *headers),
{
    let valid_api_key = match headers.get(config.auth.header_name.as_str()) {
        Some(value) => text::list_contains(&config.auth.api_keys, value),
        None => false,
    };
    let claims = parse_jwt_claims(headers);
    valid_api_key || claims.is_some()
}

/// Whether a request to the administration is let in: the protection is off, or the header holds
/// the token.
pub open spec fn admin_admitted(config: AppConfig, h: Headers) -> bool {
    !config.auth.admin.enabled || headers::field_text(h, config.auth.admin.header_name@) == Some(
        config.auth.admin.token@,
    )
}

pub fn admits_admin(config: &AppConfig, headers: &Headers) -> (r: bool)
    ensures
        r == admin_admitted(*config, *headers),
{
    if !config.auth.admin.enabled {
        return true;
    }
    match headers.get(config.auth.admin.header_name.as_str()) {
        Some(value) => text::same(value, config.auth.admin.token.as_str()),
        None => false,
    }
}

/// Where the administration is protected, a request is let in only with the very token, in the
/// header that is meant for it.
pub proof fn law_admin_needs_token(config: AppConfig, h: Headers)
    requires
        config.auth.admin.enabled,
    ensures
        admin_admitted(config, h) <==> headers::field_text(h, config.auth.admin.header_name@)
            == Some(config.auth.admin.token@),
{
}

/// The address that a trusted proxy names as the source: the first of the comma-separated list.
pub open spec fn forwarded_of(config: AppConfig, h: Headers) -> Option<Seq<char>> {
    if config.server.trust_x_forwarded_for {
        match headers::field_text(h, "x-forwarded-for"@) {
            Some(value) => Some(text::trim_of(text::split_of(value, ',')[0])),
            None => None,
        }
    } else {
        None
    }
}

pub fn forwarded_source(config: &AppConfig, headers: &Headers) -> (r: Option<String>)
    ensures
        r.deep_view() == forwarded_of(*config, *headers),
{
    if !config.server.trust_x_forwarded_for {
        return None;
    }
    match headers.get("x-forwarded-for") {
        Some(value) => {
            let parts = text::split(value, ',');
            proof {
                text::lemma_split_parts(value@, ',');
                assert(parts.deep_view()[0] == parts@[0]@);
            }
            Some(text::trim(parts[0].as_str()))
        },
        None => None,
    }
}

/// The address that a request comes from: the one that a trusted proxy names, else the one that the
/// connection has, else this machine.
pub open spec fn source_of(config: AppConfig, h: Headers, peer: Option<Seq<char>>) -> Seq<char> {
    let named = match forwarded_of(config, h) {
        Some(v) => net::canonical_ip_of(v),
        None => None,
    };
    match named {
        Some(ip) => ip,
        None => match peer {
            Some(ip) => ip,
            None => "127.0.0.1"@,
        },
    }
}

pub fn resolve_source_ip(config: &AppConfig, headers: &Headers, peer: Option<&str>) -> (r: String)
    ensures
        r@ == source_of(*config, *headers, peer.deep_view()),
{
    let named = match forwarded_source(config, headers) {
        Some(v) => net::canonical_ip(v.as_str()),
        None => None,
    };
    match named {
        Some(ip) => ip,
        None => match peer {
            Some(ip) => ip.to_string(),
            None => "127.0.0.1".to_string(),
        },
    }
}

/// The identifier of a request: the one that it carries, else a fresh one.
pub open spec fn request_id_of(config: AppConfig, h: Headers, fresh: Seq<char>) -> Seq<char> {
    match headers::field_text(h, config.security.request_id_header@) {
        Some(v) => v,
        None => fresh,
    }
}

pub fn choose_request_id(config: &AppConfig, headers: &Headers, fresh: String) -> (r: String)
    ensures
        r@ == request_id_of(*config, *headers, fresh@),
{
    match headers.get(config.security.request_id_header.as_str()) {
        Some(v) => v.to_string(),
        None => fresh,
    }
}

/// The part of a body that is inspected.
pub open spec fn inspected_part(bytes: Seq<u8>, limit: usize) -> Seq<u8> {
    if bytes.len() <= limit {
        bytes
    } else {
        bytes.take(limit as int)
    }
}

/// The text of the inspected part of a body.
pub fn preview_text(bytes: &Vec<u8>, limit: usize) -> (r: String)
    ensures
        r@ == outside::lossy_text(inspected_part(bytes@, limit)),
{
    if bytes.len() <= limit {
        outside::from_utf8_lossy(bytes.as_slice())
    } else {
        let (head, _) = bytes.as_slice().split_at(limit);
        assert(head@ =~= bytes@.take(limit as int));
        outside::from_utf8_lossy(head)
    }
}

/// The members of a JSON object as short texts.
pub open spec fn fields_of(n: JsonNodeView) -> Seq<ParsedBodyFieldView> {
    match n.value {
        JsonView::Object(members) => Seq::new(
            members.len(),
            |i: int|
                ParsedBodyFieldView {
                    key: members[i].0,
                    value_preview: text::truncate_of(members[i].1.rendered, 120),
                },
        ),
        _ => Seq::empty(),
    }
}

/// The members of a JSON object as short texts; any other value has none.
pub fn parsed_fields(node: &JsonNode) -> (r: Vec<ParsedBodyField>)
    ensures
        r.deep_view() == fields_of(node.deep_view()),
{
    let mut out: Vec<ParsedBodyField> = Vec::new();
    proof {
        json::lemma_node_view(*node);
    }
    match &node.value {
        Json::Object(members) => {
            let ghost all = fields_of(node.deep_view());
            let mut i: usize = 0;
            while i < members.len()
                invariant
                    i <= members@.len(),
                    node.deep_view().value == JsonView::Object(json::members_view(members@)),
                    all == fields_of(node.deep_view()),
                    out.deep_view() == all.take(i as int),
                decreases members@.len() - i,
            {
                proof {
                    json::lemma_node_view(members@[i as int].node);
                }
                let field = ParsedBodyField {
                    key: members[i].name.clone(),
                    value_preview: text::truncate(members[i].node.rendered.as_str(), 120),
                };
                let ghost view = field.deep_view();
                let ghost before = out.deep_view();
                assert(view == all[i as int]);
                out.push(field);
                assert(out.deep_view() =~= before.push(view));
                i = i + 1;
                assert(out.deep_view() =~= all.take(i as int));
            }
            assert(all.take(i as int) =~= all);
        },
        _ => {
            assert(out.deep_view() =~= Seq::empty());
        },
    }
    out
}

/// The fields of a body that is a JSON object.
pub open spec fn body_fields_of(body: Seq<char>) -> Seq<ParsedBodyFieldView> {
    match outside::json_parsed(utf8::encode_utf8(body)) {
        Some(n) => fields_of(n),
        None => Seq::empty(),
    }
}

pub fn extract_parsed_fields(body_preview: &str) -> (r: Vec<ParsedBodyField>)
    ensures
        r.deep_view() == body_fields_of(body_preview@),
{
    match outside::parse_json(body_preview.as_bytes()) {
        Some(node) => parsed_fields(&node),
        None => {
            let out: Vec<ParsedBodyField> = Vec::new();
            assert(out.deep_view() =~= Seq::empty());
            out
        },
    }
}

/// A query parameter: its name and its value, which is empty where there is no equals sign.
pub open spec fn parameter_of(pair: Seq<char>) -> (Seq<char>, Seq<char>) {
    let (key, value) = text::split_once_of(pair, '=');
    (
        key,
        match value {
            Some(v) => v,
            None => Seq::empty(),
        },
    )
}

pub fn parse_parameter(pair: &str) -> (r: (String, String))
    ensures
        (r.0@, r.1@) == parameter_of(pair@),
{
    let (key, value) = text::split_once(pair, '=');
    match value {
        Some(v) => (key, v),
        None => (key, String::new()),
    }
}

/// The parameters of a query in order.
pub open spec fn parameters_of(raw: Seq<char>) -> Seq<(Seq<char>, Seq<char>)> {
    let parts = text::split_of(raw, '&');
    Seq::new(parts.len(), |i: int| parameter_of(parts[i]))
}

/// The query as a table; a name that comes again gets the later value.
pub open spec fn query_table(raw: Option<Seq<char>>) -> Seq<(Seq<char>, Seq<char>)> {
    match raw {
        Some(raw) => pairs::collected_of(parameters_of(raw)),
        None => Seq::empty(),
    }
}

pub fn parse_query_map(raw: Option<&str>) -> (r: Vec<(String, String)>)
    ensures
        r.deep_view() == query_table(raw.deep_view()),
{
    let mut out: Vec<(String, String)> = Vec::new();
    match raw {
        Some(raw) => {
            let parts = text::split(raw, '&');
            let ghost all = parameters_of(raw@);
            let mut i: usize = 0;
            while i < parts.len()
                invariant
                    i <= parts@.len(),
                    parts.deep_view() == text::split_of(raw@, '&'),
                    all == parameters_of(raw@),
                    out.deep_view() == all.take(i as int),
                decreases parts@.len() - i,
            {
                assert(parts.deep_view()[i as int] == parts@[i as int]@);
                let (key, value) = parse_parameter(parts[i].as_str());
                let ghost before = out.deep_view();
                out.push((key, value));
                assert(out.deep_view() =~= before.push((key@, value@)));
                i = i + 1;
                assert(out.deep_view() =~= all.take(i as int));
            }
            assert(all.take(i as int) =~= all);
            pairs::collect(out)
        },
        None => {
            assert(out.deep_view() =~= Seq::empty());
            out
        },
    }
}

/// The path segments that name objects.
pub open spec fn path_ids(parts: Seq<Seq<char>>) -> Seq<Seq<char>>
    decreases parts.len(),
{
    if parts.len() == 0 {
        Seq::empty()
    } else {
        let before = path_ids(parts.drop_last());
        if routes::is_id_segment(parts.last()) {
            before.push(parts.last())
        } else {
            before
        }
    }
}

/// The values of parameters whose names end in `id`.
pub open spec fn parameter_ids(params: Seq<(Seq<char>, Seq<char>)>) -> Seq<Seq<char>>
    decreases params.len(),
{
    if params.len() == 0 {
        Seq::empty()
    } else {
        let before = parameter_ids(params.drop_last());
        if text::has_suffix(params.last().0, "id"@) {
            before.push(params.last().1)
        } else {
            before
        }
    }
}

/// The values of body fields whose names end in `id`, in either case.
pub open spec fn field_ids(fields: Seq<ParsedBodyFieldView>) -> Seq<Seq<char>>
    decreases fields.len(),
{
    if fields.len() == 0 {
        Seq::empty()
    } else {
        let before = field_ids(fields.drop_last());
        if text::has_suffix(text::lower_of(fields.last().key), "id"@) {
            before.push(fields.last().value_preview)
        } else {
            before
        }
    }
}

/// All object names in a request: in the path, in the query, in the body.
pub open spec fn object_ids_of(request: RequestContext) -> Seq<Seq<char>> {
    path_ids(text::split_of(request.path@, '/')) + parameter_ids(
        query_table(request.query.deep_view()),
    ) + field_ids(request.parsed_body_fields.deep_view())
}

pub fn extract_object_id_candidates(request: &RequestContext) -> (r: Vec<String>)
    ensures
        r.deep_view() == object_ids_of(*request),
{
    let mut out: Vec<String> = Vec::new();
    let parts = text::split(request.path.as_str(), '/');
    let ghost p = parts.deep_view();
    let mut i: usize = 0;
    assert(out.deep_view() =~= path_ids(p.take(0)));
    while i < parts.len()
        invariant
            i <= parts@.len(),
            p == parts.deep_view(),
            out.deep_view() == path_ids(p.take(i as int)),
        decreases parts@.len() - i,
    {
        assert(p.take(i + 1).drop_last() =~= p.take(i as int));
        assert(p[i as int] == parts@[i as int]@);
        if routes::id_segment(parts[i].as_str()) {
            text::push_text(&mut out, parts[i].clone());
        }
        i = i + 1;
    }
    assert(p.take(i as int) =~= p);
    let ghost from_path = path_ids(p);
    let table = match &request.query {
        Some(query) => parse_query_map(Some(query.as_str())),
        None => parse_query_map(None),
    };
    let ghost q = table.deep_view();
    let mut j: usize = 0;
    assert(out.deep_view() =~= from_path + parameter_ids(q.take(0)));
    while j < table.len()
        invariant
            j <= table@.len(),
            q == table.deep_view(),
            out.deep_view() == from_path + parameter_ids(q.take(j as int)),
        decreases table@.len() - j,
    {
        assert(q.take(j + 1).drop_last() =~= q.take(j as int));
        assert(q[j as int] == (table@[j as int].0@, table@[j as int].1@));
        if text::ends_with(table[j].0.as_str(), "id") {
            text::push_text(&mut out, table[j].1.clone());
            assert(out.deep_view() =~= from_path + parameter_ids(q.take(j + 1)));
        }
        j = j + 1;
    }
    assert(q.take(j as int) =~= q);
    let ghost from_query = from_path + parameter_ids(q);
    let fields = &request.parsed_body_fields;
    let ghost f = fields.deep_view();
    let mut k: usize = 0;
    assert(out.deep_view() =~= from_query + field_ids(f.take(0)));
    while k < fields.len()
        invariant
            k <= fields@.len(),
            f == fields.deep_view(),
            out.deep_view() == from_query + field_ids(f.take(k as int)),
        decreases fields@.len() - k,
    {
        assert(f.take(k + 1).drop_last() =~= f.take(k as int));
        assert(f[k as int] == fields@[k as int].deep_view());
        let lower = text::to_ascii_lowercase(fields[k].key.as_str());
        if text::ends_with(lower.as_str(), "id") {
            text::push_text(&mut out, fields[k].value_preview.clone());
            assert(out.deep_view() =~= from_query + field_ids(f.take(k + 1)));
        }
        k = k + 1;
    }
    assert(f.take(k as int) =~= f);
    out
}

/// What is known of a request from its parts, the text of the inspected part of its body and the
/// fields in it.
pub open spec fn context_of(
    config: AppConfig,
    h: Headers,
    method: Seq<char>,
    path: Seq<char>,
    query: Option<Seq<char>>,
    preview: Seq<char>,
    fields: Seq<ParsedBodyFieldView>,
    peer: Option<Seq<char>>,
    fresh: Seq<char>,
    now: Timestamp,
) -> RequestContextView {
    RequestContextView {
        request_id: request_id_of(config, h, fresh),
        timestamp: now,
        source_ip: source_of(config, h, peer),
        method,
        path,
        query,
        body_preview: if preview.len() == 0 {
            None
        } else {
            Some(preview)
        },
        parsed_body_fields: fields,
        auth_status: auth_status_of(config, path, h),
    }
}

/// Puts together what is known of a request whose body was read.
pub fn make_request_context(
    config: &AppConfig,
    headers: &Headers,
    method: String,
    path: String,
    query: Option<String>,
    preview: String,
    parsed_body_fields: Vec<ParsedBodyField>,
    peer: Option<&str>,
    fresh: String,
    now: Timestamp,
) -> (r: RequestContext)
    ensures
        r.deep_view() == context_of(
            *config,
            *headers,
            method@,
            path@,
            query.deep_view(),
            preview@,
            parsed_body_fields.deep_view(),
            peer.deep_view(),
            fresh@,
            now,
        ),
{
    let auth_status = resolve_auth_status(config, path.as_str(), headers);
    let request_id = choose_request_id(config, headers, fresh);
    let source_ip = resolve_source_ip(config, headers, peer);
    let body_preview = if preview.as_str().is_empty() {
        None
    } else {
        Some(preview)
    };
    RequestContext {
        request_id,
        timestamp: now,
        source_ip,
        method,
        path,
        query,
        body_preview,
        parsed_body_fields,
        auth_status,
    }
}

/// Reads the body of a request, as far as it is inspected, and puts together what is known of the
/// request.
pub fn build_request_context(
    config: &AppConfig,
    headers: &Headers,
    method: String,
    path: String,
    query: Option<String>,
    body: &Vec<u8>,
    peer: Option<&str>,
    fresh: String,
    now: Timestamp,
) -> (r: RequestContext)
    ensures
        ({
            let preview = outside::lossy_text(
                inspected_part(body@, config.security.max_inspection_body_bytes),
            );
            r.deep_view() == context_of(
                *config,
                *headers,
                method@,
                path@,
                query.deep_view(),
                preview,
                body_fields_of(preview),
                peer.deep_view(),
                fresh@,
                now,
            )
        }),
{
    let preview = preview_text(body, config.security.max_inspection_body_bytes);
    let fields = extract_parsed_fields(preview.as_str());
    make_request_context(config, headers, method, path, query, preview, fields, peer, fresh, now)
}

} // verus!
