//! Requests held against the configured routes.

use crate::config::{
    AppConfig, BodySchemaConfig, BodySchemaConfigView, RouteSensitivity, SchemaFieldConfig,
    SchemaFieldConfigView, SchemaFieldKind, SpecUnknownRouteMode,
};
use crate::detection::normalization;
use crate::headers;
use crate::headers::Headers;
use crate::identity;
use crate::inventory;
use crate::inventory::RouteMemory;
use crate::json;
use crate::json::{Json, JsonNode, JsonNodeView};
use crate::outside;
use crate::pairs;
use crate::routes;
use crate::routes::{CompiledRouteSpec, CompiledRouteSpecView};
use crate::text;
use crate::types;
use crate::types::{
    AttackClass, AuthStatus, EnrichedRequestContext, LivePolicyState, RequestContext,
    SchemaValidationResult, SchemaValidationResultView, Severity, Timestamp,
};
use vstd::prelude::*;
use vstd::utf8;

verus! {

/// Whether a value is of the kind that a field asks for.
pub open spec fn is_of_kind(n: JsonNodeView, kind: SchemaFieldKind) -> bool {
    match kind {
        SchemaFieldKind::Any => true,
        SchemaFieldKind::String => n.value is Text,
        SchemaFieldKind::Number => n.value is Number,
        SchemaFieldKind::Boolean => n.value is Bool,
        SchemaFieldKind::Object => n.value is Object,
        SchemaFieldKind::Array => n.value is Array,
    }
}

pub fn matches_kind(node: &JsonNode, kind: SchemaFieldKind) -> (r: bool)
    ensures
        r == is_of_kind(node.deep_view(), kind),
{
    proof {
        json::lemma_node_view(*node);
    }
    match kind {
        SchemaFieldKind::Any => true,
        SchemaFieldKind::String => match &node.value {
            Json::Text(_) => true,
            _ => false,
        },
        SchemaFieldKind::Number => match &node.value {
            Json::Number => true,
            _ => false,
        },
        SchemaFieldKind::Boolean => match &node.value {
            Json::Bool(_) => true,
            _ => false,
        },
        SchemaFieldKind::Object => match &node.value {
            Json::Object(_) => true,
            _ => false,
        },
        SchemaFieldKind::Array => match &node.value {
            Json::Array(_) => true,
            _ => false,
        },
    }
}

/// The result for a request that a schema does not allow.
pub open spec fn refused(
    policy: LivePolicyState,
    path: Seq<char>,
    rule_id: Seq<char>,
    severity: Severity,
    message: Seq<char>,
    location: Seq<char>,
    value_preview: Seq<char>,
) -> SchemaValidationResultView {
    SchemaValidationResultView {
        allow: false,
        finding: Some(
            types::finding_of(
                rule_id,
                AttackClass::SchemaViolation,
                severity,
                970_000,
                message,
                location,
                value_preview,
                types::rule_mode_of(policy, path, rule_id),
            ),
        ),
        matched_route: None,
    }
}

fn schema_block(
    policy: &LivePolicyState,
    path: &str,
    rule_id: &str,
    severity: Severity,
    message: &str,
    location: &str,
    value_preview: &str,
) -> (r: SchemaValidationResult)
    ensures
        r.deep_view() == refused(
            *policy,
            path@,
            rule_id@,
            severity,
            message@,
            location@,
            value_preview@,
        ),
{
    SchemaValidationResult {
        allow: false,
        finding: Some(
            types::make_finding(
                rule_id,
                AttackClass::SchemaViolation,
                severity,
                970_000,
                message,
                location,
                value_preview,
                types::resolve_rule_mode(policy, path, rule_id),
            ),
        ),
        matched_route: None,
    }
}

/// The first of some header names for which a request has no text.
pub open spec fn first_missing_header(required: Seq<Seq<char>>, h: Headers) -> Option<Seq<char>>
    decreases required.len(),
{
    if required.len() == 0 {
        None
    } else if headers::field_text(h, required[0]) is None {
        Some(required[0])
    } else {
        first_missing_header(required.drop_first(), h)
    }
}

fn find_missing_header(required: &Vec<String>, headers: &Headers) -> (r: Option<String>)
    ensures
        r.deep_view() == first_missing_header(required.deep_view(), *headers),
{
    let ghost all = required.deep_view();
    let mut i: usize = 0;
    assert(all.skip(0) =~= all);
    while i < required.len()
        invariant
            i <= required@.len(),
            all == required.deep_view(),
            first_missing_header(all, *headers) == first_missing_header(
                all.skip(i as int),
                *headers,
            ),
        decreases required@.len() - i,
    {
        assert(all.skip(i as int)[0] == required@[i as int]@);
        if headers.get(required[i].as_str()).is_none() {
            return Some(required[i].clone());
        }
        assert(all.skip(i as int).drop_first() =~= all.skip(i + 1));
        i = i + 1;
    }
    None
}

/// The first of some parameter names that a query lacks.
pub open spec fn first_missing_parameter(
    required: Seq<Seq<char>>,
    table: Seq<(Seq<char>, Seq<char>)>,
) -> Option<Seq<char>>
    decreases required.len(),
{
    if required.len() == 0 {
        None
    } else if pairs::position_of(table, required[0]) is None {
        Some(required[0])
    } else {
        first_missing_parameter(required.drop_first(), table)
    }
}

fn find_missing_parameter(required: &Vec<String>, table: &Vec<(String, String)>) -> (r: Option<
    String,
>)
    ensures
        r.deep_view() == first_missing_parameter(required.deep_view(), table.deep_view()),
{
    let ghost all = required.deep_view();
    let mut i: usize = 0;
    assert(all.skip(0) =~= all);
    while i < required.len()
        invariant
            i <= required@.len(),
            all == required.deep_view(),
            first_missing_parameter(all, table.deep_view()) == first_missing_parameter(
                all.skip(i as int),
                table.deep_view(),
            ),
        decreases required@.len() - i,
    {
        assert(all.skip(i as int)[0] == required@[i as int]@);
        if pairs::find(table, required[i].as_str()).is_none() {
            return Some(required[i].clone());
        }
        assert(all.skip(i as int).drop_first() =~= all.skip(i + 1));
        i = i + 1;
    }
    None
}

/// What is wrong with one field of a body, if anything is.
pub open spec fn field_error(
    policy: LivePolicyState,
    path: Seq<char>,
    n: JsonNodeView,
    field: SchemaFieldConfigView,
) -> Option<SchemaValidationResultView> {
    match json::member_of(n, field.name) {
        None => if field.required {
            Some(
                refused(
                    policy,
                    path,
                    "schema.required_field_missing"@,
                    Severity::High,
                    "required body field '"@ + field.name + "' missing"@,
                    "body."@ + field.name,
                    ""@,
                ),
            )
        } else {
            None
        },
        Some(value) => if is_of_kind(value, field.kind) {
            None
        } else {
            Some(
                refused(
                    policy,
                    path,
                    "schema.field_type_mismatch"@,
                    Severity::High,
                    "body field '"@ + field.name + "' does not match expected type"@,
                    "body."@ + field.name,
                    text::truncate_of(value.rendered, 160),
                ),
            )
        },
    }
}

/// What is wrong with the first field of a body that has something wrong.
pub open spec fn fields_error(
    policy: LivePolicyState,
    path: Seq<char>,
    n: JsonNodeView,
    fields: Seq<SchemaFieldConfigView>,
) -> Option<SchemaValidationResultView>
    decreases fields.len(),
{
    if fields.len() == 0 {
        None
    } else if field_error(policy, path, n, fields[0]) is Some {
        field_error(policy, path, n, fields[0])
    } else {
        fields_error(policy, path, n, fields.drop_first())
    }
}

fn check_field(
    policy: &LivePolicyState,
    path: &str,
    node: &JsonNode,
    field: &SchemaFieldConfig,
) -> (r: Option<SchemaValidationResult>)
    ensures
        r.deep_view() == field_error(*policy, path@, node.deep_view(), field.deep_view()),
{
    let name = field.name.as_str();
    let location = text::cat2("body.", name);
    match node.get(name) {
        None => {
            if field.required {
                let message = text::cat3("required body field '", name, "' missing");
                Some(
                    schema_block(
                        policy,
                        path,
                        "schema.required_field_missing",
                        Severity::High,
                        message.as_str(),
                        location.as_str(),
                        "",
                    ),
                )
            } else {
                None
            }
        },
        Some(value) => {
            if matches_kind(value, field.kind) {
                None
            } else {
                proof {
                    json::lemma_node_view(*value);
                }
                let message = text::cat3(
                    "body field '",
                    name,
                    "' does not match expected type",
                );
                let preview = text::truncate(value.rendered.as_str(), 160);
                Some(
                    schema_block(
                        policy,
                        path,
                        "schema.field_type_mismatch",
                        Severity::High,
                        message.as_str(),
                        location.as_str(),
                        preview.as_str(),
                    ),
                )
            }
        },
    }
}

/// What is wrong with a body, from what reading it gave, if anything is.
pub open spec fn body_error(
    policy: LivePolicyState,
    path: Seq<char>,
    schema: BodySchemaConfigView,
    body: Option<Seq<char>>,
    parsed: Option<JsonNodeView>,
) -> Option<SchemaValidationResultView> {
    if schema.required_fields.len() == 0 && !schema.require_json {
        None
    } else if body is None {
        Some(
            refused(
                policy,
                path,
                "schema.body_required"@,
                Severity::High,
                "JSON body required by schema"@,
                "request.body"@,
                ""@,
            ),
        )
    } else {
        let preview = text::truncate_of(body->0, 160);
        match parsed {
            None => Some(
                refused(
                    policy,
                    path,
                    "schema.invalid_json"@,
                    Severity::High,
                    "invalid JSON body for schema-protected route"@,
                    "request.body"@,
                    preview,
                ),
            ),
            Some(n) => if schema.max_depth > 0 && json::capped(json::depth_of(n))
                > schema.max_depth {
                Some(
                    refused(
                        policy,
                        path,
                        "schema.max_depth"@,
                        Severity::Medium,
                        "JSON body exceeds max depth "@ + text::decimal_of(
                            schema.max_depth as nat,
                        ),
                        "request.body"@,
                        preview,
                    ),
                )
            } else if schema.max_fields > 0 && json::capped(json::field_count_of(n))
                > schema.max_fields {
                Some(
                    refused(
                        policy,
                        path,
                        "schema.max_fields"@,
                        Severity::Medium,
                        "JSON body exceeds max field count "@ + text::decimal_of(
                            schema.max_fields as nat,
                        ),
                        "request.body"@,
                        preview,
                    ),
                )
            } else {
                fields_error(policy, path, n, schema.required_fields)
            },
        }
    }
}

/// Holds a body against a schema, given what reading the body gave.
pub fn check_body(
    policy: &LivePolicyState,
    path: &str,
    schema: &BodySchemaConfig,
    body: Option<&str>,
    parsed: &Option<JsonNode>,
) -> (r: Option<SchemaValidationResult>)
    ensures
        r.deep_view() == body_error(
            *policy,
            path@,
            schema.deep_view(),
            body.deep_view(),
            parsed.deep_view(),
        ),
{
    if schema.required_fields.len() == 0 && !schema.require_json {
        return None;
    }
    let body_text = match body {
        Some(b) => b,
        None => {
            return Some(
                schema_block(
                    policy,
                    path,
                    "schema.body_required",
                    Severity::High,
                    "JSON body required by schema",
                    "request.body",
                    "",
                ),
            );
        },
    };
    let preview = text::truncate(body_text, 160);
    let node = match parsed {
        Some(n) => n,
        None => {
            return Some(
                schema_block(
                    policy,
                    path,
                    "schema.invalid_json",
                    Severity::High,
                    "invalid JSON body for schema-protected route",
                    "request.body",
                    preview.as_str(),
                ),
            );
        },
    };
    if schema.max_depth > 0 && json::json_depth(node) > schema.max_depth {
        let max = text::decimal(schema.max_depth as u128);
        let message = text::cat2("JSON body exceeds max depth ", max.as_str());
        return Some(
            schema_block(
                policy,
                path,
                "schema.max_depth",
                Severity::Medium,
                message.as_str(),
                "request.body",
                preview.as_str(),
            ),
        );
    }
    if schema.max_fields > 0 && json::json_field_count(node) > schema.max_fields {
        let max = text::decimal(schema.max_fields as u128);
        let message = text::cat2("JSON body exceeds max field count ", max.as_str());
        return Some(
            schema_block(
                policy,
                path,
                "schema.max_fields",
                Severity::Medium,
                message.as_str(),
                "request.body",
                preview.as_str(),
            ),
        );
    }
    let ghost all = schema.required_fields.deep_view();
    let mut i: usize = 0;
    assert(all.skip(0) =~= all);
    while i < schema.required_fields.len()
        invariant
            i <= schema.required_fields@.len(),
            all == schema.required_fields.deep_view(),
            body_error(
                *policy,
                path@,
                schema.deep_view(),
                body.deep_view(),
                parsed.deep_view(),
            ) == fields_error(*policy, path@, node.deep_view(), all.skip(i as int)),
        decreases schema.required_fields@.len() - i,
    {
        assert(all.skip(i as int)[0] == schema.required_fields@[i as int].deep_view());
        let wrong = check_field(policy, path, node, &schema.required_fields[i]);
        if wrong.is_some() {
            return wrong;
        }
        assert(all.skip(i as int).drop_first() =~= all.skip(i + 1));
        i = i + 1;
    }
    assert(all.skip(i as int).len() == 0);
    None
}

/// What is wrong with the header fields, parameters and credentials of a request to a route, if
/// anything is.
pub open spec fn head_error(
    config: AppConfig,
    policy: LivePolicyState,
    route: CompiledRouteSpecView,
    request: RequestContext,
    h: Headers,
) -> Option<SchemaValidationResultView> {
    let path = request.path@;
    let query = identity::query_table(request.query.deep_view());
    match first_missing_header(route.required_headers, h) {
        Some(name) => Some(
            refused(
                policy,
                path,
                "schema.missing_required_header"@,
                Severity::High,
                "missing required header '"@ + name + "'"@,
                "header:"@ + name,
                name,
            ),
        ),
        None => match first_missing_parameter(route.required_query, query) {
            Some(name) => Some(
                refused(
                    policy,
                    path,
                    "schema.missing_required_query"@,
                    Severity::Medium,
                    "missing required query parameter '"@ + name + "'"@,
                    "query:"@ + name,
                    name,
                ),
            ),
            None => if route.auth_required && !identity::has_auth(config, h) {
                Some(
                    refused(
                        policy,
                        path,
                        "schema.auth_required"@,
                        Severity::High,
                        "authentication required for matched route"@,
                        "request.auth"@,
                        path,
                    ),
                )
            } else {
                None
            },
        },
    }
}

fn check_head(
    config: &AppConfig,
    policy: &LivePolicyState,
    route: &CompiledRouteSpec,
    request: &RequestContext,
    headers: &Headers,
) -> (r: Option<SchemaValidationResult>)
    ensures
        r.deep_view() == head_error(*config, *policy, route.deep_view(), *request, *headers),
{
    let path = request.path.as_str();
    if let Some(name) = find_missing_header(&route.required_headers, headers) {
        let message = text::cat3("missing required header '", name.as_str(), "'");
        let location = text::cat2("header:", name.as_str());
        return Some(
            schema_block(
                policy,
                path,
                "schema.missing_required_header",
                Severity::High,
                message.as_str(),
                location.as_str(),
                name.as_str(),
            ),
        );
    }
    let table = match &request.query {
        Some(q) => identity::parse_query_map(Some(q.as_str())),
        None => identity::parse_query_map(None),
    };
    if let Some(name) = find_missing_parameter(&route.required_query, &table) {
        let message = text::cat3("missing required query parameter '", name.as_str(), "'");
        let location = text::cat2("query:", name.as_str());
        return Some(
            schema_block(
                policy,
                path,
                "schema.missing_required_query",
                Severity::Medium,
                message.as_str(),
                location.as_str(),
                name.as_str(),
            ),
        );
    }
    if route.auth_required && !identity::has_auth_context(config, headers) {
        return Some(
            schema_block(
                policy,
                path,
                "schema.auth_required",
                Severity::High,
                "authentication required for matched route",
                "request.auth",
                path,
            ),
        );
    }
    None
}

/// The result for a request to a route that is not configured.
pub open spec fn unknown_route(
    policy: LivePolicyState,
    path: Seq<char>,
    normalized_path: Seq<char>,
    mode: SpecUnknownRouteMode,
) -> SchemaValidationResultView {
    SchemaValidationResultView {
        allow: mode != SpecUnknownRouteMode::Block,
        finding: Some(
            types::finding_of(
                "schema.unknown_route"@,
                AttackClass::SchemaViolation,
                match mode {
                    SpecUnknownRouteMode::Allow => Severity::Low,
                    SpecUnknownRouteMode::Detect => Severity::Medium,
                    SpecUnknownRouteMode::Block => Severity::High,
                },
                930_000,
                "route not present in configured API spec: "@ + normalized_path,
                "request.path"@,
                normalized_path,
                types::rule_mode_of(policy, path, "schema.unknown_route"@),
            ),
        ),
        matched_route: None,
    }
}

fn unknown_route_result(
    policy: &LivePolicyState,
    path: &str,
    normalized_path: &str,
    mode: SpecUnknownRouteMode,
) -> (r: SchemaValidationResult)
    ensures
        r.deep_view() == unknown_route(*policy, path@, normalized_path@, mode),
{
    let severity = match mode {
        SpecUnknownRouteMode::Allow => Severity::Low,
        SpecUnknownRouteMode::Detect => Severity::Medium,
        SpecUnknownRouteMode::Block => Severity::High,
    };
    let message = text::cat2("route not present in configured API spec: ", normalized_path);
    SchemaValidationResult {
        allow: mode != SpecUnknownRouteMode::Block,
        finding: Some(
            types::make_finding(
                "schema.unknown_route",
                AttackClass::SchemaViolation,
                severity,
                930_000,
                message.as_str(),
                "request.path",
                normalized_path,
                types::resolve_rule_mode(policy, path, "schema.unknown_route"),
            ),
        ),
        matched_route: None,
    }
}

/// The result of holding a request against the configured routes, given what reading its body
/// gave.
pub open spec fn validation_of(
    config: AppConfig,
    policy: LivePolicyState,
    request: RequestContext,
    normalized_path: Seq<char>,
    h: Headers,
    parsed: Option<JsonNodeView>,
) -> SchemaValidationResultView {
    if !config.spec.enabled {
        SchemaValidationResultView { allow: true, finding: None, matched_route: None }
    } else {
        match routes::match_in(routes::compiled_routes(config), request.method@, normalized_path) {
            None => unknown_route(
                policy,
                request.path@,
                normalized_path,
                config.spec.unknown_route_mode,
            ),
            Some(route) => match head_error(config, policy, route, request, h) {
                Some(wrong) => wrong,
                None => match body_error(
                    policy,
                    request.path@,
                    route.body,
                    request.body_preview.deep_view(),
                    parsed,
                ) {
                    Some(wrong) => wrong,
                    None => SchemaValidationResultView {
                        allow: true,
                        finding: None,
                        matched_route: Some(route.path_template),
                    },
                },
            },
        }
    }
}

/// What reading the body of a request as JSON gives.
pub open spec fn body_json(request: RequestContext) -> Option<JsonNodeView> {
    match request.body_preview {
        Some(body) => outside::json_parsed(utf8::encode_utf8(body@)),
        None => None,
    }
}

pub fn validate_against_spec(
    config: &AppConfig,
    policy: &LivePolicyState,
    enriched: &EnrichedRequestContext,
    headers: &Headers,
) -> (r: SchemaValidationResult)
    ensures
        r.deep_view() == validation_of(
            *config,
            *policy,
            enriched.request,
            enriched.normalized_path@,
            *headers,
            body_json(enriched.request),
        ),
{
    if !config.spec.enabled {
        return SchemaValidationResult { allow: true, finding: None, matched_route: None };
    }
    let request = &enriched.request;
    let spec = routes::compiled_spec_db(config);
    let route = match routes::spec_match(
        &spec,
        request.method.as_str(),
        enriched.normalized_path.as_str(),
    ) {
        Some(route) => route,
        None => {
            return unknown_route_result(
                policy,
                request.path.as_str(),
                enriched.normalized_path.as_str(),
                spec.unknown_route_mode,
            );
        },
    };
    if let Some(wrong) = check_head(config, policy, route, request, headers) {
        return wrong;
    }
    let body: Option<&str> = match &request.body_preview {
        Some(b) => Some(b.as_str()),
        None => None,
    };
    let parsed = match body {
        Some(b) => outside::parse_json(b.as_bytes()),
        None => None,
    };
    if let Some(wrong) = check_body(policy, request.path.as_str(), &route.body, body, &parsed) {
        return wrong;
    }
    SchemaValidationResult {
        allow: true,
        finding: None,
        matched_route: Some(route.path_template.clone()),
    }
}

/// A refusal always comes with a finding, and a request is matched to a route only where nothing is
/// wrong with it.
pub proof fn law_refusals_have_findings(
    config: AppConfig,
    policy: LivePolicyState,
    request: RequestContext,
    normalized_path: Seq<char>,
    h: Headers,
    parsed: Option<JsonNodeView>,
)
    ensures
        ({
            let v = validation_of(config, policy, request, normalized_path, h, parsed);
            &&& !v.allow ==> v.finding is Some
            &&& v.matched_route is Some ==> v.allow && v.finding is None
        }),
{
    if config.spec.enabled {
        match routes::match_in(routes::compiled_routes(config), request.method@, normalized_path) {
            Some(route) => {
                if head_error(config, policy, route, request, h) is None {
                    match parsed {
                        Some(n) => {
                            lemma_fields_error_refuses(
                                policy,
                                request.path@,
                                n,
                                route.body.required_fields,
                            );
                        },
                        None => {},
                    }
                }
            },
            None => {},
        }
    }
}

proof fn lemma_fields_error_refuses(
    policy: LivePolicyState,
    path: Seq<char>,
    n: JsonNodeView,
    fields: Seq<SchemaFieldConfigView>,
)
    ensures
        fields_error(policy, path, n, fields) is Some ==> {
            let v = fields_error(policy, path, n, fields)->0;
            !v.allow && v.finding is Some && v.matched_route is None
        },
    decreases fields.len(),
{
    if fields.len() > 0 {
        lemma_fields_error_refuses(policy, path, n, fields.drop_first());
    }
}

/// The first of two optional texts that is there.
pub open spec fn either(a: Option<Seq<char>>, b: Option<Seq<char>>) -> Option<Seq<char>> {
    match a {
        Some(v) => Some(v),
        None => b,
    }
}

fn choose_either(a: Option<String>, b: Option<String>) -> (r: Option<String>)
    ensures
        r.deep_view() == either(a.deep_view(), b.deep_view()),
{
    match a {
        Some(v) => Some(v),
        None => b,
    }
}

/// The size of a request body: what the content-length header says, else the size of the part that
/// is inspected.
pub open spec fn request_size_of(request: RequestContext, h: Headers) -> nat {
    let preview = match request.body_preview {
        Some(b) => text::byte_len_of(b@),
        None => 0,
    };
    match headers::field_text(h, "content-length"@) {
        Some(v) => match text::parsed_uint(v, usize::MAX as nat) {
            Some(n) => n,
            None => preview,
        },
        None => preview,
    }
}

fn request_size(request: &RequestContext, headers: &Headers) -> (r: usize)
    ensures
        r == request_size_of(*request, *headers),
{
    let preview: usize = match &request.body_preview {
        Some(b) => text::byte_len(b.as_str()),
        None => 0,
    };
    match headers.get("content-length") {
        Some(v) => match text::parse_uint(v, usize::MAX as u64) {
            Some(n) => n as usize,
            None => preview,
        },
        None => preview,
    }
}

/// Whether `e` is what is worked out about a request: its route, its principal, the names in its
/// token and headers, and the objects that it names.
pub open spec fn enriched_from(
    config: AppConfig,
    request: RequestContext,
    h: Headers,
    hits: u64,
    e: EnrichedRequestContext,
) -> bool {
    let path = routes::route_of(request.path@);
    let claims = identity::claims_of(h);
    let matched = routes::match_in(routes::compiled_routes(config), request.method@, path);
    &&& e.request.deep_view() == request.deep_view()
    &&& e.normalized_path@ == path
    &&& e.normalized_route@ == (match matched {
        Some(route) => route.path_template,
        None => path,
    })
    &&& e.principal.deep_view() == identity::principal_of(
        claims,
        identity::api_key_name(config, h),
        request.source_ip@,
    )
    &&& e.tenant_id.deep_view() == either(
        identity::claim(claims, "tenant_id"@),
        headers::field_text(h, "x-tenant-id"@),
    )
    &&& e.user_id.deep_view() == either(
        identity::claim(claims, "sub"@),
        headers::field_text(h, "x-user-id"@),
    )
    &&& e.jwt_sub.deep_view() == identity::claim(claims, "sub"@)
    &&& e.api_key_hash.deep_view() == identity::api_key_name(config, h)
    &&& e.sensitivity == (match matched {
        Some(route) => route.sensitivity,
        None => RouteSensitivity::AuthenticatedStandard,
    })
    &&& e.required_scopes.deep_view() == (match matched {
        Some(route) => route.required_scopes,
        None => Seq::empty(),
    })
    &&& e.schema_mode == config.spec.unknown_route_mode
    &&& e.object_id_candidates.deep_view() == identity::object_ids_of(request)
    &&& e.learned_route_hits == hits
    &&& e.request_content_type.deep_view() == normalization::media_type_of(
        headers::field_text(h, "content-type"@),
    )
    &&& e.request_size_bytes == request_size_of(request, h)
}

/// Works out what the inspection needs to know about a request and records its route.
pub fn enrich_request(
    config: &AppConfig,
    memory: &mut RouteMemory,
    request: &RequestContext,
    headers: &Headers,
    now: Timestamp,
) -> (r: EnrichedRequestContext)
    ensures
        enriched_from(
            *config,
            *request,
            *headers,
            inventory::hits_after(
                old(memory).deep_view(),
                request.method@,
                routes::route_of(request.path@),
            ),
            r,
        ),
        final(memory).deep_view() == inventory::remembered(
            old(memory).deep_view(),
            request.method@,
            routes::route_of(request.path@),
            request.auth_status == AuthStatus::Satisfied,
            now,
            config.discovery.max_learned_routes,
        ),
{
    let normalized_path = routes::security_route(request.path.as_str());
    let principal = identity::derive_principal(config, request, headers);
    let claims = identity::parse_jwt_claims(headers);
    let tenant_id = choose_either(
        identity::claim_text(&claims, "tenant_id"),
        headers::header_value(headers, "x-tenant-id"),
    );
    let user_id = choose_either(
        identity::claim_text(&claims, "sub"),
        headers::header_value(headers, "x-user-id"),
    );
    let jwt_sub = identity::claim_text(&claims, "sub");
    let api_key_hash = identity::api_key_hash_from_headers(config, headers);
    let spec = routes::compiled_spec_db(config);
    let (normalized_route, sensitivity, required_scopes) = match routes::spec_match(
        &spec,
        request.method.as_str(),
        normalized_path.as_str(),
    ) {
        Some(route) => (
            route.path_template.clone(),
            route.sensitivity,
            text::clone_list(&route.required_scopes),
        ),
        None => {
            let none: Vec<String> = Vec::new();
            assert(none.deep_view() =~= Seq::empty());
            (normalized_path.clone(), RouteSensitivity::AuthenticatedStandard, none)
        },
    };
    let has_auth = request.auth_status == AuthStatus::Satisfied;
    let learned_route_hits = inventory::remember_route(
        memory,
        request.method.as_str(),
        normalized_path.as_str(),
        has_auth,
        now,
        config.discovery.max_learned_routes,
    );
    EnrichedRequestContext {
        request: request.clone(),
        normalized_path,
        normalized_route,
        principal,
        tenant_id,
        user_id,
        jwt_sub,
        api_key_hash,
        sensitivity,
        required_scopes,
        schema_mode: config.spec.unknown_route_mode,
        object_id_candidates: identity::extract_object_id_candidates(request),
        learned_route_hits,
        request_content_type: normalization::media_type(headers),
        request_size_bytes: request_size(request, headers),
    }
}

} // verus!
