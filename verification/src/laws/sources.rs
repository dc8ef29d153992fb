//! Where the findings about a request come from.

use crate::config::{AppConfig, DiscoveryConfig, RuleMode};
use crate::detection::detectors;
use crate::detection::normalization::NormalizedRequestView;
use crate::detection::schema_learning;
use crate::detection::schema_learning::{LearnedFieldView, LearnedJsonSchemaView};
use crate::detection::tokens;
use crate::headers::{Header, Headers};
use crate::json::JsonNodeView;
use crate::laws;
use crate::routes;
use crate::types::{AttackClass, AuthStatus, FindingView, LivePolicyState, RequestContext};
use crate::validation;
use vstd::prelude::*;

verus! {

/// Whether a name is that of a rule of a class.
pub open spec fn rule_of(rule_id: Seq<char>, class: AttackClass) -> bool {
    rule_id.len() >= 8 && !rule_id.contains(':') && laws::class_of_rule(rule_id) == class
}

pub proof fn lemma_payload_rules()
    ensures
        rule_of("UZ-TRAV-001"@, AttackClass::PathTraversal),
        rule_of("UZ-SQLI-001"@, AttackClass::SqlInjection),
        rule_of("UZ-SQLI-002"@, AttackClass::SqlInjection),
        rule_of("UZ-XSS-001"@, AttackClass::Xss),
        rule_of("UZ-XSS-002"@, AttackClass::Xss),
        rule_of("UZ-CMDI-001"@, AttackClass::CommandInjection),
        rule_of("UZ-CMDI-002"@, AttackClass::CommandInjection),
        rule_of("UZ-SSRF-001"@, AttackClass::Ssrf),
        rule_of("UZ-EVASION-001"@, AttackClass::PayloadEvasion),
{
    reveal_strlit("UZ-TRAV-001");
    reveal_strlit("UZ-SQLI-001");
    reveal_strlit("UZ-SQLI-002");
    reveal_strlit("UZ-XSS-001");
    reveal_strlit("UZ-XSS-002");
    reveal_strlit("UZ-CMDI-001");
    reveal_strlit("UZ-CMDI-002");
    reveal_strlit("UZ-SSRF-001");
    reveal_strlit("UZ-EVASION-001");
}

pub proof fn lemma_protocol_rules()
    ensures
        rule_of("header.crlf"@, AttackClass::HeaderInjection),
        rule_of("smuggling.cl_te"@, AttackClass::RequestSmuggling),
        rule_of("UZ-PROTO-002"@, AttackClass::RequestSmuggling),
        rule_of("UZ-PROTO-003"@, AttackClass::RequestSmuggling),
        rule_of("auth.missing_api_key"@, AttackClass::BrokenAuthentication),
        rule_of("auth.invalid_api_key"@, AttackClass::BrokenAuthentication),
        rule_of("method.disallowed"@, AttackClass::MethodAbuse),
        rule_of("object.multiple_ids"@, AttackClass::ObjectEnumeration),
        rule_of("tenant.cross_boundary"@, AttackClass::TenantBoundaryViolation),
        rule_of("UZ-API-RESOURCE-001"@, AttackClass::ResourceAbuse),
        rule_of("UZ-API-RESOURCE-002"@, AttackClass::ResourceAbuse),
        rule_of("UZ-API-RESOURCE-003"@, AttackClass::ResourceAbuse),
        rule_of("UZ-API-INV-001"@, AttackClass::ApiInventory),
        rule_of("UZ-API-INV-004"@, AttackClass::ApiInventory),
{
    reveal_strlit("header.crlf");
    reveal_strlit("smuggling.cl_te");
    reveal_strlit("UZ-PROTO-002");
    reveal_strlit("UZ-PROTO-003");
    reveal_strlit("auth.missing_api_key");
    reveal_strlit("auth.invalid_api_key");
    reveal_strlit("method.disallowed");
    reveal_strlit("object.multiple_ids");
    reveal_strlit("tenant.cross_boundary");
    reveal_strlit("UZ-API-RESOURCE-001");
    reveal_strlit("UZ-API-RESOURCE-002");
    reveal_strlit("UZ-API-RESOURCE-003");
    reveal_strlit("UZ-API-INV-001");
    reveal_strlit("UZ-API-INV-004");
}

pub proof fn lemma_token_rules()
    ensures
        rule_of("jwt.alg_none"@, AttackClass::JwtAbuse),
        rule_of("jwt.invalid_issuer"@, AttackClass::JwtAbuse),
        rule_of("jwt.invalid_audience"@, AttackClass::JwtAbuse),
        rule_of("jwt.missing_scope"@, AttackClass::JwtAbuse),
        rule_of("jwt.invalid_encoding"@, AttackClass::JwtAbuse),
        rule_of("jwt.invalid_structure"@, AttackClass::JwtAbuse),
{
    reveal_strlit("jwt.alg_none");
    reveal_strlit("jwt.invalid_issuer");
    reveal_strlit("jwt.invalid_audience");
    reveal_strlit("jwt.missing_scope");
    reveal_strlit("jwt.invalid_encoding");
    reveal_strlit("jwt.invalid_structure");
}

pub proof fn lemma_schema_rules()
    ensures
        rule_of("schema.required_field_missing"@, AttackClass::SchemaViolation),
        rule_of("schema.field_type_mismatch"@, AttackClass::SchemaViolation),
        rule_of("schema.body_required"@, AttackClass::SchemaViolation),
        rule_of("schema.invalid_json"@, AttackClass::SchemaViolation),
        rule_of("schema.max_depth"@, AttackClass::SchemaViolation),
        rule_of("schema.max_fields"@, AttackClass::SchemaViolation),
        rule_of("schema.missing_required_header"@, AttackClass::SchemaViolation),
        rule_of("schema.missing_required_query"@, AttackClass::SchemaViolation),
        rule_of("schema.auth_required"@, AttackClass::SchemaViolation),
        rule_of("schema.unknown_route"@, AttackClass::SchemaViolation),
{
    reveal_strlit("schema.required_field_missing");
    reveal_strlit("schema.field_type_mismatch");
    reveal_strlit("schema.body_required");
    reveal_strlit("schema.invalid_json");
    reveal_strlit("schema.max_depth");
    reveal_strlit("schema.max_fields");
    reveal_strlit("schema.missing_required_header");
    reveal_strlit("schema.missing_required_query");
    reveal_strlit("schema.auth_required");
    reveal_strlit("schema.unknown_route");
}

pub proof fn lemma_learned_rules()
    ensures
        rule_of("UZ-API-SCHEMA-001"@, AttackClass::SchemaViolation),
        rule_of("UZ-API-SCHEMA-002"@, AttackClass::SchemaViolation),
        rule_of("UZ-API-SCHEMA-003"@, AttackClass::SchemaViolation),
        rule_of("UZ-API-SCHEMA-004"@, AttackClass::SchemaViolation),
        rule_of("UZ-API-SCHEMA-005"@, AttackClass::SchemaViolation),
        rule_of("UZ-API-SCHEMA-006"@, AttackClass::SchemaViolation),
        rule_of("UZ-API-SCHEMA-007"@, AttackClass::SchemaViolation),
        rule_of("UZ-API-SCHEMA-008"@, AttackClass::SchemaViolation),
{
    reveal_strlit("UZ-API-SCHEMA-001");
    reveal_strlit("UZ-API-SCHEMA-002");
    reveal_strlit("UZ-API-SCHEMA-003");
    reveal_strlit("UZ-API-SCHEMA-004");
    reveal_strlit("UZ-API-SCHEMA-005");
    reveal_strlit("UZ-API-SCHEMA-006");
    reveal_strlit("UZ-API-SCHEMA-007");
    reveal_strlit("UZ-API-SCHEMA-008");
}

/// Whether all findings are of one of two classes.
pub open spec fn within(found: Seq<FindingView>, a: AttackClass, b: AttackClass) -> bool {
    forall|i: int|
        0 <= i < found.len() ==> (#[trigger] found[i]).attack_class == a || found[i].attack_class
            == b
}

pub broadcast proof fn lemma_within(
    found: Seq<FindingView>,
    a: AttackClass,
    b: AttackClass,
    class: AttackClass,
    location: Seq<char>,
)
    requires
        #[trigger] within(found, a, b),
    ensures
        #[trigger] laws::names(found, class, location) ==> class == a || class == b,
{
}

pub proof fn lemma_fields(
    policy: LivePolicyState,
    path: Seq<char>,
    h: Headers,
    fields: Seq<Header>,
)
    ensures
        laws::sound(detectors::fields_findings(policy, path, h, fields)),
        within(
            detectors::fields_findings(policy, path, h, fields),
            AttackClass::HeaderInjection,
            AttackClass::RequestSmuggling,
        ),
    decreases fields.len(),
{
    broadcast use laws::group_findings;

    lemma_protocol_rules();
    if fields.len() > 0 {
        lemma_fields(policy, path, h, fields.drop_last());
    }
}

pub proof fn lemma_header(
    policy: LivePolicyState,
    path: Seq<char>,
    h: Headers,
    method: Seq<char>,
    body: Option<Seq<char>>,
)
    ensures
        laws::sound(detectors::header_findings(policy, path, h, method, body)),
        within(
            detectors::header_findings(policy, path, h, method, body),
            AttackClass::HeaderInjection,
            AttackClass::RequestSmuggling,
        ),
{
    broadcast use laws::group_findings;

    lemma_protocol_rules();
    lemma_fields(policy, path, h, h.entries@);
}

pub proof fn lemma_credentials(
    config: AppConfig,
    policy: LivePolicyState,
    path: Seq<char>,
    status: AuthStatus,
    method: Seq<char>,
)
    ensures
        laws::sound(detectors::auth_findings(config, policy, path, status)),
        within(
            detectors::auth_findings(config, policy, path, status),
            AttackClass::BrokenAuthentication,
            AttackClass::BrokenAuthentication,
        ),
        laws::sound(detectors::method_findings(config, policy, path, method)),
        within(
            detectors::method_findings(config, policy, path, method),
            AttackClass::MethodAbuse,
            AttackClass::MethodAbuse,
        ),
{
    lemma_protocol_rules();
}

pub proof fn lemma_objects(
    policy: LivePolicyState,
    path: Seq<char>,
    object_ids: Seq<Seq<char>>,
    tenant_id: Option<Seq<char>>,
    tenant_hint: Option<Seq<char>>,
)
    ensures
        laws::sound(detectors::object_findings(policy, path, object_ids, tenant_id, tenant_hint)),
        within(
            detectors::object_findings(policy, path, object_ids, tenant_id, tenant_hint),
            AttackClass::ObjectEnumeration,
            AttackClass::TenantBoundaryViolation,
        ),
{
    broadcast use laws::group_findings;

    lemma_protocol_rules();
}

pub proof fn lemma_pagination(
    policy: LivePolicyState,
    path: Seq<char>,
    pairs: Seq<(Seq<char>, Seq<char>)>,
)
    ensures
        laws::sound(detectors::pagination_findings(policy, path, pairs)),
        within(
            detectors::pagination_findings(policy, path, pairs),
            AttackClass::ResourceAbuse,
            AttackClass::ResourceAbuse,
        ),
    decreases pairs.len(),
{
    broadcast use laws::group_findings;

    lemma_protocol_rules();
    if pairs.len() > 0 {
        lemma_pagination(policy, path, pairs.drop_last());
    }
}

pub proof fn lemma_resources(
    config: AppConfig,
    policy: LivePolicyState,
    path: Seq<char>,
    n: NormalizedRequestView,
    content_length: Option<Seq<char>>,
)
    ensures
        laws::sound(detectors::resource_findings(config, policy, path, n, content_length)),
        within(
            detectors::resource_findings(config, policy, path, n, content_length),
            AttackClass::ResourceAbuse,
            AttackClass::ResourceAbuse,
        ),
{
    broadcast use laws::group_findings;

    lemma_protocol_rules();
    lemma_pagination(policy, path, n.query_pairs);
}

pub proof fn lemma_inventory(
    config: AppConfig,
    policy: LivePolicyState,
    path: Seq<char>,
    normalized_path: Seq<char>,
    hits: u64,
    deprecated: bool,
)
    ensures
        laws::sound(
            detectors::inventory_findings(config, policy, path, normalized_path, hits, deprecated),
        ),
        within(
            detectors::inventory_findings(config, policy, path, normalized_path, hits, deprecated),
            AttackClass::ApiInventory,
            AttackClass::ApiInventory,
        ),
{
    broadcast use laws::group_findings;

    lemma_protocol_rules();
}

pub proof fn lemma_tokens(
    config: AppConfig,
    policy: LivePolicyState,
    path: Seq<char>,
    required_scopes: Seq<Seq<char>>,
    h: Headers,
)
    ensures
        laws::sound(tokens::token_findings(config, policy, path, required_scopes, h)),
        within(
            tokens::token_findings(config, policy, path, required_scopes, h),
            AttackClass::JwtAbuse,
            AttackClass::JwtAbuse,
        ),
{
    broadcast use laws::group_findings;

    lemma_token_rules();
}

pub open spec fn only(f: Option<FindingView>) -> Seq<FindingView> {
    match f {
        Some(f) => seq![f],
        None => Seq::empty(),
    }
}

proof fn lemma_body_fields(
    policy: LivePolicyState,
    path: Seq<char>,
    n: JsonNodeView,
    fields: Seq<crate::config::SchemaFieldConfigView>,
)
    ensures
        match validation::fields_error(policy, path, n, fields) {
            Some(r) => r.finding is Some && laws::is_sound(r.finding->0) && r.finding->0.attack_class
                == AttackClass::SchemaViolation,
            None => true,
        },
    decreases fields.len(),
{
    lemma_schema_rules();
    if fields.len() > 0 {
        lemma_body_fields(policy, path, n, fields.drop_first());
    }
}

pub proof fn lemma_declared(
    config: AppConfig,
    policy: LivePolicyState,
    request: RequestContext,
    route: Seq<char>,
    h: Headers,
    parsed: Option<JsonNodeView>,
)
    ensures
        match validation::validation_of(config, policy, request, route, h, parsed).finding {
            Some(f) => laws::is_sound(f) && f.attack_class == AttackClass::SchemaViolation,
            None => true,
        },
{
    lemma_schema_rules();
    match routes::match_in(routes::compiled_routes(config), request.method@, route) {
        Some(r) => {
            if parsed is Some {
                lemma_body_fields(policy, request.path@, parsed->0, r.body.required_fields);
            }
        },
        None => {},
    }
}

proof fn lemma_learned_fields(
    learned: Seq<(Seq<char>, LearnedFieldView)>,
    found: Seq<(Seq<char>, Seq<char>)>,
    mode: RuleMode,
)
    ensures
        laws::sound(schema_learning::field_findings(learned, found, mode)),
        within(
            schema_learning::field_findings(learned, found, mode),
            AttackClass::SchemaViolation,
            AttackClass::SchemaViolation,
        ),
    decreases found.len(),
{
    broadcast use laws::group_findings;

    lemma_learned_rules();
    if found.len() > 0 {
        lemma_learned_fields(learned, found.drop_last(), mode);
    }
}

proof fn lemma_learned_missing(
    learned: Seq<(Seq<char>, LearnedFieldView)>,
    samples: u64,
    found: Seq<(Seq<char>, Seq<char>)>,
    mode: RuleMode,
)
    ensures
        laws::sound(schema_learning::missing_findings(learned, samples, found, mode)),
        within(
            schema_learning::missing_findings(learned, samples, found, mode),
            AttackClass::SchemaViolation,
            AttackClass::SchemaViolation,
        ),
    decreases learned.len(),
{
    broadcast use laws::group_findings;

    lemma_learned_rules();
    if learned.len() > 0 {
        lemma_learned_missing(learned.drop_last(), samples, found, mode);
    }
}

pub proof fn lemma_learned(
    m: Seq<(Seq<char>, LearnedJsonSchemaView)>,
    route_key: Seq<char>,
    body: Option<Seq<char>>,
    content_type: Option<Seq<char>>,
    parsed: Option<JsonNodeView>,
    config: DiscoveryConfig,
    mode: RuleMode,
)
    ensures
        laws::sound(
            schema_learning::body_findings(m, route_key, body, content_type, parsed, config, mode),
        ),
        within(
            schema_learning::body_findings(m, route_key, body, content_type, parsed, config, mode),
            AttackClass::SchemaViolation,
            AttackClass::SchemaViolation,
        ),
{
    broadcast use laws::group_findings;

    lemma_learned_rules();
    if parsed is Some {
        let schema = schema_learning::schema_for(m, route_key);
        let fields = schema_learning::fields_of(parsed->0, config.max_schema_fields);
        lemma_learned_fields(schema.fields, fields, mode);
        lemma_learned_missing(schema.fields, schema.samples, fields, mode);
    }
}

} // verus!
