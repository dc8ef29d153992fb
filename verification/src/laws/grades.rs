//! How grave and how sure the findings about a request are, and what mode they have.

use crate::config::{AppConfig, RuleMode};
use crate::dedupe;
use crate::detection;
use crate::detection::detectors;
use crate::detection::inspection;
use crate::detection::normalization;
use crate::detection::normalization::NormalizedRequestView;
use crate::detection::schema_learning;
use crate::detection::schema_learning::{LearnedFieldView, LearnedJsonSchemaView};
use crate::detection::tokens;
use crate::headers;
use crate::headers::{Header, Headers};
use crate::identity;
use crate::inventory;
use crate::json::JsonNodeView;
use crate::laws::attacks;
use crate::routes;
use crate::types;
use crate::types::{
    AttackClass, FindingView, LearnedRouteView, LivePolicyState, RequestContext, Severity,
};
use crate::validation;
use vstd::prelude::*;

verus! {

/// Whether a finding is as grave and as sure as one of its rule is.
pub open spec fn is_weighed(config: AppConfig, f: FindingView) -> bool {
    let r = f.rule_id;
    let high = f.severity == Severity::High;
    let medium = f.severity == Severity::Medium;
    let low = f.severity == Severity::Low;
    let critical = f.severity == Severity::Critical;
    &&& r == "header.crlf"@ ==> critical && f.confidence == 970_000
    &&& r == "smuggling.cl_te"@ ==> high && f.confidence == 720_000
    &&& r == "UZ-PROTO-002"@ ==> medium && f.confidence == 700_000
    &&& r == "UZ-PROTO-003"@ ==> low && f.confidence == 620_000
    &&& r == "auth.missing_api_key"@ || r == "auth.invalid_api_key"@ ==> high && f.confidence
        == 990_000
    &&& r == "method.disallowed"@ ==> high && f.confidence == 980_000
    &&& r == "object.multiple_ids"@ ==> medium && f.confidence == 680_000
    &&& r == "tenant.cross_boundary"@ ==> critical && f.confidence == 940_000
    &&& r == "UZ-API-RESOURCE-001"@ ==> medium && f.confidence == 840_000
    &&& r == "UZ-API-RESOURCE-002"@ ==> high && f.confidence == 960_000
    &&& r == "UZ-API-RESOURCE-003"@ ==> medium && f.confidence == 800_000
    &&& r == "UZ-API-INV-001"@ ==> low && f.confidence == 880_000
    &&& r == "UZ-API-INV-004"@ ==> medium && f.confidence == 920_000
    &&& r == "jwt.alg_none"@ ==> critical && f.confidence == 990_000
    &&& r == "jwt.invalid_issuer"@ ==> high && f.confidence == 920_000
    &&& r == "jwt.invalid_audience"@ || r == "jwt.missing_scope"@ ==> high && f.confidence
        == 900_000
    &&& r == "jwt.invalid_encoding"@ ==> high && f.confidence == 960_000
    &&& r == "jwt.invalid_structure"@ ==> high && f.confidence == 950_000
    &&& r == "schema.unknown_route"@ ==> f.confidence == 930_000
    &&& r == "schema.missing_required_query"@ || r == "schema.max_depth"@ || r
        == "schema.max_fields"@ ==> medium && f.confidence == 970_000
    &&& r == "schema.missing_required_header"@ || r == "schema.auth_required"@ || r
        == "schema.body_required"@ || r == "schema.invalid_json"@ || r
        == "schema.required_field_missing"@ || r == "schema.field_type_mismatch"@ ==> high
        && f.confidence == 970_000
    &&& r == "UZ-API-SCHEMA-001"@ ==> medium && f.confidence == 720_000
    &&& r == "UZ-API-SCHEMA-002"@ ==> low && f.confidence == 680_000
    &&& r == "UZ-API-SCHEMA-003"@ ==> medium && f.confidence == 780_000
    &&& r == "UZ-API-SCHEMA-004"@ ==> medium && f.confidence == 880_000
    &&& r == "UZ-API-SCHEMA-005"@ ==> high && f.confidence == 900_000
    &&& r == "UZ-API-SCHEMA-006"@ ==> medium && f.confidence == 860_000
    &&& r == "UZ-API-SCHEMA-007"@ ==> medium && f.confidence == 750_000
    &&& r == "UZ-API-SCHEMA-008"@ ==> low && f.confidence == 620_000
}

/// Whether the policy set the mode of a finding: by its rule, or by one name for all rules on
/// learned bodies.
pub open spec fn is_moded(policy: LivePolicyState, path: Seq<char>, f: FindingView) -> bool {
    f.mode == types::rule_mode_of(
        policy,
        path,
        if f.rule_id[0] == 'U' && f.attack_class == AttackClass::SchemaViolation {
            "UZ-API-SCHEMA-000"@
        } else {
            f.rule_id
        },
    )
}

pub open spec fn graded(
    config: AppConfig,
    policy: LivePolicyState,
    path: Seq<char>,
    found: Seq<FindingView>,
) -> bool {
    forall|i: int|
        0 <= i < found.len() ==> is_weighed(config, #[trigger] found[i]) && is_moded(
            policy,
            path,
            found[i],
        )
}

/// The positions at which the names of the rules differ.
proof fn lemma_names()
    ensures
        "header.crlf"@.len() == 11 && "header.crlf"@[0] == 'h',
        "smuggling.cl_te"@.len() == 15 && "smuggling.cl_te"@[0] == 's',
        "UZ-PROTO-002"@.len() == 12 && "UZ-PROTO-002"@[0] == 'U' && "UZ-PROTO-002"@[3] == 'P'
            && "UZ-PROTO-002"@[11] == '2',
        "UZ-PROTO-003"@.len() == 12 && "UZ-PROTO-003"@[0] == 'U' && "UZ-PROTO-003"@[3] == 'P'
            && "UZ-PROTO-003"@[11] == '3',
        "auth.missing_api_key"@.len() == 20 && "auth.missing_api_key"@[0] == 'a',
        "auth.invalid_api_key"@.len() == 20 && "auth.invalid_api_key"@[0] == 'a',
        "method.disallowed"@.len() == 17 && "method.disallowed"@[0] == 'm',
        "object.multiple_ids"@.len() == 19 && "object.multiple_ids"@[0] == 'o',
        "tenant.cross_boundary"@.len() == 21 && "tenant.cross_boundary"@[0] == 't',
        "UZ-API-RESOURCE-001"@.len() == 19 && "UZ-API-RESOURCE-001"@[0] == 'U'
            && "UZ-API-RESOURCE-001"@[18] == '1',
        "UZ-API-RESOURCE-002"@.len() == 19 && "UZ-API-RESOURCE-002"@[0] == 'U'
            && "UZ-API-RESOURCE-002"@[18] == '2',
        "UZ-API-RESOURCE-003"@.len() == 19 && "UZ-API-RESOURCE-003"@[0] == 'U'
            && "UZ-API-RESOURCE-003"@[18] == '3',
        "UZ-API-INV-001"@.len() == 14 && "UZ-API-INV-001"@[0] == 'U' && "UZ-API-INV-001"@[13] == '1',
        "UZ-API-INV-004"@.len() == 14 && "UZ-API-INV-004"@[0] == 'U' && "UZ-API-INV-004"@[13] == '4',
        "jwt.alg_none"@.len() == 12 && "jwt.alg_none"@[0] == 'j',
        "jwt.invalid_issuer"@.len() == 18 && "jwt.invalid_issuer"@[0] == 'j',
        "jwt.invalid_audience"@.len() == 20 && "jwt.invalid_audience"@[0] == 'j'
            && "jwt.invalid_audience"@[12] == 'a',
        "jwt.missing_scope"@.len() == 17 && "jwt.missing_scope"@[0] == 'j',
        "jwt.invalid_encoding"@.len() == 20 && "jwt.invalid_encoding"@[0] == 'j'
            && "jwt.invalid_encoding"@[12] == 'e',
        "jwt.invalid_structure"@.len() == 21 && "jwt.invalid_structure"@[0] == 'j',
{
    reveal_strlit("header.crlf");
    reveal_strlit("smuggling.cl_te");
    reveal_strlit("UZ-PROTO-002");
    reveal_strlit("UZ-PROTO-003");
    reveal_strlit("auth.missing_api_key");
    reveal_strlit("auth.invalid_api_key");
    reveal_strlit("method.disallowed");
    reveal_strlit("object.multiple_ids");
    reveal_strlit("tenant.cross_boundary");
    reveal_strlit("UZ-API-RESOURCE-001");
    reveal_strlit("UZ-API-RESOURCE-002");
    reveal_strlit("UZ-API-RESOURCE-003");
    reveal_strlit("UZ-API-INV-001");
    reveal_strlit("UZ-API-INV-004");
    reveal_strlit("jwt.alg_none");
    reveal_strlit("jwt.invalid_issuer");
    reveal_strlit("jwt.invalid_audience");
    reveal_strlit("jwt.missing_scope");
    reveal_strlit("jwt.invalid_encoding");
    reveal_strlit("jwt.invalid_structure");
}

proof fn lemma_schema_names()
    ensures
        "schema.unknown_route"@.len() == 20 && "schema.unknown_route"@[0] == 's'
            && "schema.unknown_route"@[1] == 'c' && "schema.unknown_route"@[7] == 'u',
        "schema.missing_required_query"@.len() == 29 && "schema.missing_required_query"@[0] == 's'
            && "schema.missing_required_query"@[1] == 'c' && "schema.missing_required_query"@[7]
            == 'm',
        "schema.max_depth"@.len() == 16 && "schema.max_depth"@[0] == 's' && "schema.max_depth"@[1]
            == 'c',
        "schema.max_fields"@.len() == 17 && "schema.max_fields"@[0] == 's'
            && "schema.max_fields"@[1] == 'c',
        "schema.missing_required_header"@.len() == 30 && "schema.missing_required_header"@[0] == 's'
            && "schema.missing_required_header"@[1] == 'c',
        "schema.auth_required"@.len() == 20 && "schema.auth_required"@[0] == 's'
            && "schema.auth_required"@[1] == 'c' && "schema.auth_required"@[7] == 'a',
        "schema.body_required"@.len() == 20 && "schema.body_required"@[0] == 's'
            && "schema.body_required"@[1] == 'c' && "schema.body_required"@[7] == 'b',
        "schema.invalid_json"@.len() == 19 && "schema.invalid_json"@[0] == 's'
            && "schema.invalid_json"@[1] == 'c',
        "schema.required_field_missing"@.len() == 29 && "schema.required_field_missing"@[0] == 's'
            && "schema.required_field_missing"@[1] == 'c' && "schema.required_field_missing"@[7]
            == 'r',
        "schema.field_type_mismatch"@.len() == 26 && "schema.field_type_mismatch"@[0] == 's'
            && "schema.field_type_mismatch"@[1] == 'c',
        "UZ-API-SCHEMA-001"@.len() == 17 && "UZ-API-SCHEMA-001"@[0] == 'U'
            && "UZ-API-SCHEMA-001"@[16] == '1',
        "UZ-API-SCHEMA-002"@.len() == 17 && "UZ-API-SCHEMA-002"@[0] == 'U'
            && "UZ-API-SCHEMA-002"@[16] == '2',
        "UZ-API-SCHEMA-003"@.len() == 17 && "UZ-API-SCHEMA-003"@[0] == 'U'
            && "UZ-API-SCHEMA-003"@[16] == '3',
        "UZ-API-SCHEMA-004"@.len() == 17 && "UZ-API-SCHEMA-004"@[0] == 'U'
            && "UZ-API-SCHEMA-004"@[16] == '4',
        "UZ-API-SCHEMA-005"@.len() == 17 && "UZ-API-SCHEMA-005"@[0] == 'U'
            && "UZ-API-SCHEMA-005"@[16] == '5',
        "UZ-API-SCHEMA-006"@.len() == 17 && "UZ-API-SCHEMA-006"@[0] == 'U'
            && "UZ-API-SCHEMA-006"@[16] == '6',
        "UZ-API-SCHEMA-007"@.len() == 17 && "UZ-API-SCHEMA-007"@[0] == 'U'
            && "UZ-API-SCHEMA-007"@[16] == '7',
        "UZ-API-SCHEMA-008"@.len() == 17 && "UZ-API-SCHEMA-008"@[0] == 'U'
            && "UZ-API-SCHEMA-008"@[16] == '8',
        "UZ-TRAV-001"@.len() == 11 && "UZ-TRAV-001"@[0] == 'U',
        "UZ-SQLI-001"@.len() == 11 && "UZ-SQLI-001"@[0] == 'U',
        "UZ-SQLI-002"@.len() == 11 && "UZ-SQLI-002"@[0] == 'U',
        "UZ-XSS-001"@.len() == 10 && "UZ-XSS-001"@[0] == 'U',
        "UZ-XSS-002"@.len() == 10 && "UZ-XSS-002"@[0] == 'U',
        "UZ-CMDI-001"@.len() == 11 && "UZ-CMDI-001"@[0] == 'U',
        "UZ-CMDI-002"@.len() == 11 && "UZ-CMDI-002"@[0] == 'U',
        "UZ-SSRF-001"@.len() == 11 && "UZ-SSRF-001"@[0] == 'U',
        "UZ-EVASION-001"@.len() == 14 && "UZ-EVASION-001"@[0] == 'U' && "UZ-EVASION-001"@[3] == 'E',
        "UZ-API-INV-001"@[3] == 'A',
        "UZ-API-INV-004"@[3] == 'A',
{
    reveal_strlit("schema.unknown_route");
    reveal_strlit("schema.missing_required_query");
    reveal_strlit("schema.max_depth");
    reveal_strlit("schema.max_fields");
    reveal_strlit("schema.missing_required_header");
    reveal_strlit("schema.auth_required");
    reveal_strlit("schema.body_required");
    reveal_strlit("schema.invalid_json");
    reveal_strlit("schema.required_field_missing");
    reveal_strlit("schema.field_type_mismatch");
    reveal_strlit("UZ-API-SCHEMA-001");
    reveal_strlit("UZ-API-SCHEMA-002");
    reveal_strlit("UZ-API-SCHEMA-003");
    reveal_strlit("UZ-API-SCHEMA-004");
    reveal_strlit("UZ-API-SCHEMA-005");
    reveal_strlit("UZ-API-SCHEMA-006");
    reveal_strlit("UZ-API-SCHEMA-007");
    reveal_strlit("UZ-API-SCHEMA-008");
    reveal_strlit("UZ-TRAV-001");
    reveal_strlit("UZ-SQLI-001");
    reveal_strlit("UZ-SQLI-002");
    reveal_strlit("UZ-XSS-001");
    reveal_strlit("UZ-XSS-002");
    reveal_strlit("UZ-CMDI-001");
    reveal_strlit("UZ-CMDI-002");
    reveal_strlit("UZ-SSRF-001");
    reveal_strlit("UZ-EVASION-001");
    reveal_strlit("UZ-API-INV-001");
    reveal_strlit("UZ-API-INV-004");
}

proof fn lemma_fields(
    config: AppConfig,
    policy: LivePolicyState,
    path: Seq<char>,
    h: Headers,
    fields: Seq<Header>,
)
    ensures
        graded(config, policy, path, detectors::fields_findings(policy, path, h, fields)),
    decreases fields.len(),
{
    lemma_names();
    lemma_schema_names();
    if fields.len() > 0 {
        lemma_fields(config, policy, path, h, fields.drop_last());
        if fields.last().value is Some {
            let more = detectors::field_findings(
                policy,
                path,
                h,
                fields.last().name@,
                fields.last().value->0@,
            );
            assert(graded(config, policy, path, more));
        }
    }
}

proof fn lemma_header(
    config: AppConfig,
    policy: LivePolicyState,
    path: Seq<char>,
    h: Headers,
    method: Seq<char>,
    body: Option<Seq<char>>,
)
    ensures
        graded(config, policy, path, detectors::header_findings(policy, path, h, method, body)),
{
    lemma_names();
    lemma_schema_names();
    lemma_fields(config, policy, path, h, h.entries@);
}

proof fn lemma_pagination(
    config: AppConfig,
    policy: LivePolicyState,
    path: Seq<char>,
    pairs: Seq<(Seq<char>, Seq<char>)>,
)
    ensures
        graded(config, policy, path, detectors::pagination_findings(policy, path, pairs)),
    decreases pairs.len(),
{
    lemma_names();
    lemma_schema_names();
    if pairs.len() > 0 {
        lemma_pagination(config, policy, path, pairs.drop_last());
    }
}

proof fn lemma_resources(
    config: AppConfig,
    policy: LivePolicyState,
    path: Seq<char>,
    n: NormalizedRequestView,
    content_length: Option<Seq<char>>,
)
    ensures
        graded(
            config,
            policy,
            path,
            detectors::resource_findings(config, policy, path, n, content_length),
        ),
{
    lemma_names();
    lemma_schema_names();
    lemma_pagination(config, policy, path, n.query_pairs);
}

proof fn lemma_tokens(
    config: AppConfig,
    policy: LivePolicyState,
    path: Seq<char>,
    required_scopes: Seq<Seq<char>>,
    h: Headers,
)
    ensures
        graded(
            config,
            policy,
            path,
            tokens::token_findings(config, policy, path, required_scopes, h),
        ),
{
    lemma_names();
    lemma_schema_names();
}

proof fn lemma_payload(
    config: AppConfig,
    policy: LivePolicyState,
    path: Seq<char>,
    location: Seq<char>,
    parts: Seq<Seq<char>>,
)
    ensures
        graded(
            config,
            policy,
            path,
            detection::candidate_findings(config, policy, path, location, parts),
        ),
{
    lemma_names();
    lemma_schema_names();
    if parts.len() > 0 {
        let values = detection::variants_of(config, parts);
        let haystack = crate::text::join_of(values, " | "@);
        let signals = detection::signals_of(values, haystack);
        assert(graded(
            config,
            policy,
            path,
            detection::payload_findings_of(policy, path, location, haystack, signals),
        ));
    }
}

proof fn lemma_body_fields(
    config: AppConfig,
    policy: LivePolicyState,
    path: Seq<char>,
    n: JsonNodeView,
    fields: Seq<crate::config::SchemaFieldConfigView>,
)
    ensures
        match validation::fields_error(policy, path, n, fields) {
            Some(r) => r.finding is Some && is_weighed(config, r.finding->0) && is_moded(
                policy,
                path,
                r.finding->0,
            ),
            None => true,
        },
    decreases fields.len(),
{
    lemma_names();
    lemma_schema_names();
    if fields.len() > 0 {
        lemma_body_fields(config, policy, path, n, fields.drop_first());
    }
}

proof fn lemma_declared(
    config: AppConfig,
    policy: LivePolicyState,
    request: RequestContext,
    route: Seq<char>,
    h: Headers,
    parsed: Option<JsonNodeView>,
)
    ensures
        match validation::validation_of(config, policy, request, route, h, parsed).finding {
            Some(f) => is_weighed(config, f) && is_moded(policy, request.path@, f),
            None => true,
        },
{
    lemma_names();
    lemma_schema_names();
    match routes::match_in(routes::compiled_routes(config), request.method@, route) {
        Some(r) => {
            if parsed is Some {
                lemma_body_fields(config, policy, request.path@, parsed->0, r.body.required_fields);
            }
        },
        None => {},
    }
}

proof fn lemma_learned_fields(
    config: AppConfig,
    policy: LivePolicyState,
    path: Seq<char>,
    learned: Seq<(Seq<char>, LearnedFieldView)>,
    found: Seq<(Seq<char>, Seq<char>)>,
    mode: RuleMode,
)
    requires
        mode == types::rule_mode_of(policy, path, "UZ-API-SCHEMA-000"@),
    ensures
        graded(config, policy, path, schema_learning::field_findings(learned, found, mode)),
    decreases found.len(),
{
    lemma_names();
    lemma_schema_names();
    if found.len() > 0 {
        lemma_learned_fields(config, policy, path, learned, found.drop_last(), mode);
    }
}

proof fn lemma_learned_missing(
    config: AppConfig,
    policy: LivePolicyState,
    path: Seq<char>,
    learned: Seq<(Seq<char>, LearnedFieldView)>,
    samples: u64,
    found: Seq<(Seq<char>, Seq<char>)>,
    mode: RuleMode,
)
    requires
        mode == types::rule_mode_of(policy, path, "UZ-API-SCHEMA-000"@),
    ensures
        graded(
            config,
            policy,
            path,
            schema_learning::missing_findings(learned, samples, found, mode),
        ),
    decreases learned.len(),
{
    lemma_names();
    lemma_schema_names();
    if learned.len() > 0 {
        lemma_learned_missing(config, policy, path, learned.drop_last(), samples, found, mode);
    }
}

proof fn lemma_departures(
    config: AppConfig,
    policy: LivePolicyState,
    path: Seq<char>,
    schema: LearnedJsonSchemaView,
    found: Seq<(Seq<char>, Seq<char>)>,
    body_len: usize,
    mode: RuleMode,
)
    requires
        mode == types::rule_mode_of(policy, path, "UZ-API-SCHEMA-000"@),
    ensures
        graded(
            config,
            policy,
            path,
            schema_learning::departures(schema, found, body_len, mode),
        ),
{
    lemma_names();
    lemma_schema_names();
    lemma_learned_fields(config, policy, path, schema.fields, found, mode);
    lemma_learned_missing(config, policy, path, schema.fields, schema.samples, found, mode);
    lemma_add(
        config,
        policy,
        path,
        schema_learning::field_findings(schema.fields, found, mode),
        schema_learning::missing_findings(schema.fields, schema.samples, found, mode),
    );
}

proof fn lemma_structure(
    config: AppConfig,
    policy: LivePolicyState,
    path: Seq<char>,
    depth: usize,
    array_len: usize,
    mode: RuleMode,
)
    requires
        mode == types::rule_mode_of(policy, path, "UZ-API-SCHEMA-000"@),
    ensures
        graded(
            config,
            policy,
            path,
            schema_learning::structure_findings(depth, array_len, config.discovery, mode),
        ),
{
    lemma_names();
    lemma_schema_names();
}

proof fn lemma_unread(
    config: AppConfig,
    policy: LivePolicyState,
    path: Seq<char>,
    route_key: Seq<char>,
    content_type: Option<Seq<char>>,
    mode: RuleMode,
)
    requires
        mode == types::rule_mode_of(policy, path, "UZ-API-SCHEMA-000"@),
    ensures
        graded(
            config,
            policy,
            path,
            schema_learning::content_type_findings(route_key, content_type, mode),
        ),
        graded(config, policy, path, seq![schema_learning::malformed_finding(mode)]),
{
    lemma_names();
    lemma_schema_names();
}

proof fn lemma_learned(
    config: AppConfig,
    policy: LivePolicyState,
    schemas: Seq<(Seq<char>, LearnedJsonSchemaView)>,
    request: RequestContext,
    h: Headers,
)
    ensures
        graded(
            config,
            policy,
            request.path@,
            inspection::learned_findings(config, policy, schemas, request, h),
        ),
{
    let path = request.path@;
    let mode = types::rule_mode_of(policy, path, "UZ-API-SCHEMA-000"@);
    let parsed = inspection::parsed_body(request);
    let key = inspection::schema_key(request);
    let body_len = crate::text::byte_len_of(request.body_preview.deep_view()->0) as usize;
    lemma_unread(
        config,
        policy,
        path,
        key,
        normalization::normalized_of(request, h, detection::limits_of(config)).content_type,
        mode,
    );
    if parsed is Some {
        let n = parsed->0;
        let schema = schema_learning::schema_for(schemas, key);
        let fields = schema_learning::fields_of(n, config.discovery.max_schema_fields);
        let depth = crate::json::capped(crate::json::depth_of(n)) as usize;
        let array_len = crate::json::array_len_of(n) as usize;
        lemma_departures(config, policy, path, schema, fields, body_len, mode);
        lemma_structure(config, policy, path, depth, array_len, mode);
        lemma_add(
            config,
            policy,
            path,
            schema_learning::structure_findings(depth, array_len, config.discovery, mode),
            schema_learning::departures(schema, fields, body_len, mode),
        );
        lemma_add(
            config,
            policy,
            path,
            schema_learning::structure_findings(depth, array_len, config.discovery, mode),
            Seq::empty(),
        );
    }
}

proof fn lemma_others(
    config: AppConfig,
    policy: LivePolicyState,
    known: Seq<LearnedRouteView>,
    hits: u64,
    request: RequestContext,
    h: Headers,
)
    ensures
        ({
            let path = request.path@;
            let route = routes::route_of(path);
            &&& graded(
                config,
                policy,
                path,
                detectors::inventory_findings(
                    config,
                    policy,
                    path,
                    route,
                    hits,
                    inventory::deprecated_in(known, request.method@, route),
                ),
            )
            &&& graded(
                config,
                policy,
                path,
                detectors::auth_findings(config, policy, path, request.auth_status),
            )
            &&& graded(
                config,
                policy,
                path,
                detectors::method_findings(config, policy, path, request.method@),
            )
            &&& graded(
                config,
                policy,
                path,
                detectors::object_findings(
                    policy,
                    path,
                    identity::object_ids_of(request),
                    inspection::acting_tenant(h),
                    detectors::tenant_hint_of(request),
                ),
            )
        }),
{
    lemma_names();
    lemma_schema_names();
}

spec fn checks_graded(
    config: AppConfig,
    policy: LivePolicyState,
    path: Seq<char>,
    c: attacks::Checks,
) -> bool {
    &&& graded(config, policy, path, c.declared)
    &&& graded(config, policy, path, c.inventory)
    &&& graded(config, policy, path, c.credentials)
    &&& graded(config, policy, path, c.method)
    &&& graded(config, policy, path, c.path)
    &&& graded(config, policy, path, c.headers)
    &&& graded(config, policy, path, c.body)
    &&& graded(config, policy, path, c.tokens)
    &&& graded(config, policy, path, c.objects)
    &&& graded(config, policy, path, c.resources)
    &&& graded(config, policy, path, c.learned)
}

proof fn lemma_add(
    config: AppConfig,
    policy: LivePolicyState,
    path: Seq<char>,
    a: Seq<FindingView>,
    b: Seq<FindingView>,
)
    requires
        graded(config, policy, path, a),
        graded(config, policy, path, b),
    ensures
        graded(config, policy, path, a + b),
{
}

proof fn lemma_in_order(
    config: AppConfig,
    policy: LivePolicyState,
    path: Seq<char>,
    c: attacks::Checks,
)
    requires
        checks_graded(config, policy, path, c),
    ensures
        graded(config, policy, path, attacks::in_order(c)),
{
    lemma_add(config, policy, path, c.declared, c.inventory);
    lemma_add(config, policy, path, c.credentials, c.method);
    lemma_add(config, policy, path, c.credentials + c.method, c.path);
    lemma_add(config, policy, path, c.credentials + c.method + c.path, c.headers);
    lemma_add(config, policy, path, c.credentials + c.method + c.path + c.headers, c.body);
    lemma_add(config, policy, path, c.tokens, c.objects);
    lemma_add(config, policy, path, c.tokens + c.objects, c.resources);
    let a = c.declared + c.inventory;
    let b = c.credentials + c.method + c.path + c.headers + c.body;
    let d = c.tokens + c.objects + c.resources;
    lemma_add(config, policy, path, a, b);
    lemma_add(config, policy, path, a + b, d);
    lemma_add(config, policy, path, a + b + d, c.learned);
}

proof fn lemma_checks(
    config: AppConfig,
    policy: LivePolicyState,
    known: Seq<LearnedRouteView>,
    hits: u64,
    schemas: Seq<(Seq<char>, LearnedJsonSchemaView)>,
    request: RequestContext,
    h: Headers,
)
    ensures
        checks_graded(
            config,
            policy,
            request.path@,
            attacks::checks_of(config, policy, known, hits, schemas, request, h),
        ),
{
    let path = request.path@;
    let route = routes::route_of(path);
    let n = normalization::normalized_of(request, h, detection::limits_of(config));
    lemma_declared(config, policy, request, route, h, validation::body_json(request));
    lemma_others(config, policy, known, hits, request, h);
    lemma_payload(
        config,
        policy,
        path,
        "request.path_or_query"@,
        attacks::path_parts(config, request),
    );
    lemma_payload(config, policy, path, "request.body"@, attacks::body_parts(config, request));
    lemma_header(
        config,
        policy,
        path,
        h,
        crate::text::upper_of(request.method@),
        request.body_preview.deep_view(),
    );
    lemma_tokens(config, policy, path, inspection::scopes_required(config, request), h);
    lemma_resources(config, policy, path, n, headers::field_text(h, "content-length"@));
    lemma_learned(config, policy, schemas, request, h);
}

/// Every finding about a request is as grave and as sure as its rule says, and has the mode that the
/// policy sets for its rule on the path of the request.
pub proof fn law_findings_graded(
    config: AppConfig,
    policy: LivePolicyState,
    known: Seq<LearnedRouteView>,
    hits: u64,
    schemas: Seq<(Seq<char>, LearnedJsonSchemaView)>,
    request: RequestContext,
    h: Headers,
)
    ensures
        graded(
            config,
            policy,
            request.path@,
            attacks::found_in(config, policy, known, hits, schemas, request, h),
        ),
{
    lemma_checks(config, policy, known, hits, schemas, request, h);
    lemma_in_order(
        config,
        policy,
        request.path@,
        attacks::checks_of(config, policy, known, hits, schemas, request, h),
    );
    attacks::lemma_in_order(config, policy, known, hits, schemas, request, h);
    lemma_kept(
        config,
        policy,
        request.path@,
        inspection::request_findings(config, policy, known, hits, schemas, request, h),
    );
}

proof fn lemma_kept(
    config: AppConfig,
    policy: LivePolicyState,
    path: Seq<char>,
    found: Seq<FindingView>,
)
    requires
        graded(config, policy, path, found),
    ensures
        graded(
            config,
            policy,
            path,
            dedupe::first_by_key(found, inspection::by_finding_key()),
        ),
    decreases found.len(),
{
    if found.len() > 0 {
        lemma_kept(config, policy, path, found.drop_last());
    }
}

} // verus!
