//! How a request is held against the declared interface.

use crate::config::{
    AppConfig, BodySchemaConfigView, ConfiguredRouteSpec, SchemaFieldConfigView, SchemaFieldKind,
    SpecUnknownRouteMode,
};
use crate::headers;
use crate::headers::Headers;
use crate::identity;
use crate::json;
use crate::json::{JsonNodeView, JsonView};
use crate::pairs;
use crate::routes;
use crate::routes::CompiledRouteSpecView;
use crate::text;
use crate::types;
use crate::types::{AttackClass, LivePolicyState, RequestContext, Severity};
use crate::validation;
use vstd::prelude::*;

verus! {

/// Whether a declared route is that of a request: the same method in any case, and as many
/// segments, each of them a placeholder or the same in any case.
pub open spec fn is_route_of(r: ConfiguredRouteSpec, method: Seq<char>, route: Seq<char>) -> bool {
    let declared = text::split_of(
        text::trim_matches_of(routes::normal_path(r.path_template@), '/'),
        '/',
    );
    let asked = text::split_of(text::trim_matches_of(route, '/'), '/');
    &&& text::lower_of(r.method@) == text::lower_of(method)
    &&& declared.len() == asked.len()
    &&& forall|i: int|
        0 <= i < declared.len() ==> (#[trigger] declared[i]).len() > 0 && declared[i][0] == '{'
            && declared[i].last() == '}' || text::lower_of(declared[i]) == text::lower_of(asked[i])
}

proof fn lemma_lower_upper(s: Seq<char>)
    ensures
        text::lower_of(text::upper_of(s)) == text::lower_of(s),
{
    assert forall|i: int| 0 <= i < s.len() implies text::lower_char_of(
        #[trigger] text::upper_of(s)[i],
    ) == text::lower_char_of(s[i]) by {
        let c = s[i];
        if 'a' <= c && c <= 'z' {
            assert(65 <= text::upper_char_of(c) as u32 <= 90);
            assert(text::upper_char_of(c) as u32 == c as u32 - 32);
            assert(text::lower_char_of(text::upper_char_of(c)) as u32 == c as u32);
        }
    }
    assert(text::lower_of(text::upper_of(s)) =~= text::lower_of(s));
}

proof fn lemma_is_route(r: ConfiguredRouteSpec, method: Seq<char>, route: Seq<char>)
    ensures
        routes::route_takes(routes::compiled_of(r), method, route) == is_route_of(
            r,
            method,
            route,
        ),
{
    lemma_lower_upper(r.method@);
    let declared = text::split_of(
        text::trim_matches_of(routes::normal_path(r.path_template@), '/'),
        '/',
    );
    let asked = text::split_of(text::trim_matches_of(route, '/'), '/');
    if is_route_of(r, method, route) {
        assert forall|i: int| 0 <= i < declared.len() implies #[trigger] routes::segment_fits(
            declared[i],
            asked[i],
        ) by {}
    }
    if routes::pattern_fits(routes::normal_path(r.path_template@), route) {
        assert forall|i: int| 0 <= i < declared.len() implies (#[trigger] declared[i]).len() > 0
            && declared[i][0] == '{' && declared[i].last() == '}' || text::lower_of(declared[i])
            == text::lower_of(asked[i]) by {
            assert(routes::segment_fits(declared[i], asked[i]));
        }
    }
}

/// The position of the first declared route that is that of a request.
pub open spec fn is_first_route(
    config: AppConfig,
    method: Seq<char>,
    route: Seq<char>,
    i: int,
) -> bool {
    let declared = config.spec.routes@;
    &&& 0 <= i < declared.len()
    &&& is_route_of(declared[i], method, route)
    &&& forall|j: int| 0 <= j < i ==> !is_route_of(#[trigger] declared[j], method, route)
}

proof fn lemma_match_in(
    compiled: Seq<CompiledRouteSpecView>,
    method: Seq<char>,
    route: Seq<char>,
) -> (at: int)
    ensures
        match routes::match_in(compiled, method, route) {
            Some(r) => 0 <= at < compiled.len() && r == compiled[at] && routes::route_takes(
                compiled[at],
                method,
                route,
            ) && forall|j: int|
                0 <= j < at ==> !routes::route_takes(#[trigger] compiled[j], method, route),
            None => forall|j: int|
                0 <= j < compiled.len() ==> !routes::route_takes(
                    #[trigger] compiled[j],
                    method,
                    route,
                ),
        },
    decreases compiled.len(),
{
    if compiled.len() == 0 || routes::route_takes(compiled[0], method, route) {
        0
    } else {
        let rest = compiled.drop_first();
        let i = lemma_match_in(rest, method, route);
        assert forall|j: int|
            0 <= j < compiled.len() && (routes::match_in(rest, method, route) is None || j < i
                + 1) implies !routes::route_takes(#[trigger] compiled[j], method, route) by {
            if j > 0 {
                assert(rest[j - 1] == compiled[j]);
            }
        }
        i + 1
    }
}

/// A request belongs to the first declared route that fits it, and takes over what is declared of
/// it; where none fits it belongs to none.
pub proof fn law_route_matched(config: AppConfig, method: Seq<char>, route: Seq<char>)
    ensures
        match routes::match_in(routes::compiled_routes(config), method, route) {
            Some(r) => exists|i: int| #[trigger]
                is_first_route(config, method, route, i) && ({
                    let declared = config.spec.routes@[i];
                    &&& r.path_template == declared.path_template@
                    &&& r.auth_required == declared.auth_required
                    &&& r.required_headers == declared.required_headers.deep_view().map_values(
                        |n: Seq<char>| text::lower_of(n),
                    )
                    &&& r.required_query == declared.required_query.deep_view()
                    &&& r.required_scopes == declared.required_scopes.deep_view()
                    &&& r.sensitivity == declared.sensitivity
                    &&& r.body == declared.body.deep_view()
                }),
            None => forall|i: int|
                0 <= i < config.spec.routes@.len() ==> !is_route_of(
                    #[trigger] config.spec.routes@[i],
                    method,
                    route,
                ),
        },
{
    let compiled = routes::compiled_routes(config);
    let at = lemma_match_in(compiled, method, route);
    assert forall|i: int| 0 <= i < compiled.len() implies {
        &&& #[trigger] compiled[i] == routes::compiled_of(config.spec.routes@[i])
        &&& routes::route_takes(compiled[i], method, route) == is_route_of(
            config.spec.routes@[i],
            method,
            route,
        )
    } by {
        lemma_is_route(config.spec.routes@[i], method, route);
    }
    match routes::match_in(compiled, method, route) {
        Some(r) => {
            assert forall|j: int| 0 <= j < at implies !is_route_of(
                #[trigger] config.spec.routes@[j],
                method,
                route,
            ) by {
                assert(!routes::route_takes(compiled[j], method, route));
            }
            assert(is_first_route(config, method, route, at));
            let names = config.spec.routes@[at].required_headers.deep_view();
            assert(r.required_headers =~= names.map_values(|n: Seq<char>| text::lower_of(n)));
        },
        None => {
            assert forall|i: int| 0 <= i < config.spec.routes@.len() implies !is_route_of(
                #[trigger] config.spec.routes@[i],
                method,
                route,
            ) by {
                assert(!routes::route_takes(compiled[i], method, route));
            }
        },
    }
}

/// Whether a request carries a known API key or the claims of a bearer token.
pub open spec fn has_credentials(config: AppConfig, h: Headers) -> bool {
    let key = headers::field_text(h, config.auth.header_name@);
    (key is Some && config.auth.api_keys.deep_view().contains(key->0)) || identity::claims_of(
        h,
    ) is Some
}

/// Whether a value is of a declared kind.
pub open spec fn is_kind(n: JsonNodeView, kind: SchemaFieldKind) -> bool {
    match n.value {
        JsonView::Null => kind == SchemaFieldKind::Any,
        JsonView::Bool(_) => kind == SchemaFieldKind::Any || kind == SchemaFieldKind::Boolean,
        JsonView::Number => kind == SchemaFieldKind::Any || kind == SchemaFieldKind::Number,
        JsonView::Text(_) => kind == SchemaFieldKind::Any || kind == SchemaFieldKind::String,
        JsonView::Array(_) => kind == SchemaFieldKind::Any || kind == SchemaFieldKind::Array,
        JsonView::Object(_) => kind == SchemaFieldKind::Any || kind == SchemaFieldKind::Object,
    }
}

/// Whether a body has a declared field as it is declared.
pub open spec fn has_declared_field(n: JsonNodeView, field: SchemaFieldConfigView) -> bool {
    match json::member_of(n, field.name) {
        Some(value) => is_kind(value, field.kind),
        None => !field.required,
    }
}

/// Whether a body is as it is declared: nothing is asked of it, or it is JSON, neither deeper nor
/// larger than allowed, with every declared field.
pub open spec fn is_declared_body(
    schema: BodySchemaConfigView,
    body: Option<Seq<char>>,
    parsed: Option<JsonNodeView>,
) -> bool {
    ||| !schema.require_json && schema.required_fields.len() == 0
    ||| {
        &&& body is Some && parsed is Some
        &&& schema.max_depth == 0 || json::capped(json::depth_of(parsed->0)) <= schema.max_depth
        &&& schema.max_fields == 0 || json::capped(json::field_count_of(parsed->0))
            <= schema.max_fields
        &&& forall|i: int|
            0 <= i < schema.required_fields.len() ==> has_declared_field(
                parsed->0,
                #[trigger] schema.required_fields[i],
            )
    }
}

proof fn lemma_fields(
    policy: LivePolicyState,
    path: Seq<char>,
    n: JsonNodeView,
    fields: Seq<SchemaFieldConfigView>,
)
    ensures
        validation::fields_error(policy, path, n, fields) is None <==> forall|i: int|
            0 <= i < fields.len() ==> has_declared_field(n, #[trigger] fields[i]),
        validation::fields_error(policy, path, n, fields) is Some ==> is_refusal(
            validation::fields_error(policy, path, n, fields)->0,
        ) && validation::fields_error(policy, path, n, fields)->0.finding->0.rule_id
            != "schema.auth_required"@,
    decreases fields.len(),
{
    reveal_strlit("schema.auth_required");
    reveal_strlit("schema.required_field_missing");
    reveal_strlit("schema.field_type_mismatch");
    assert("schema.auth_required"@.len() == 20);
    assert("schema.required_field_missing"@.len() == 29);
    assert("schema.field_type_mismatch"@.len() == 26);
    if fields.len() > 0 {
        let rest = fields.drop_first();
        lemma_fields(policy, path, n, rest);
        assert(validation::field_error(policy, path, n, fields[0]) is None == has_declared_field(
            n,
            fields[0],
        ));
        assert(forall|i: int| 0 <= i < rest.len() ==> #[trigger] rest[i] == fields[i + 1]);
        if forall|i: int| 0 <= i < rest.len() ==> has_declared_field(n, #[trigger] rest[i]) {
            assert forall|i: int| 0 < i < fields.len() implies has_declared_field(
                n,
                #[trigger] fields[i],
            ) by {
                assert(rest[i - 1] == fields[i]);
            }
        }
        if forall|i: int| 0 <= i < fields.len() ==> has_declared_field(n, #[trigger] fields[i]) {
            assert forall|i: int| 0 <= i < rest.len() implies has_declared_field(
                n,
                #[trigger] rest[i],
            ) by {
                assert(has_declared_field(n, fields[i + 1]));
            }
        }
    }
}

/// Whether a request was turned away with a finding about it.
pub open spec fn is_refusal(r: types::SchemaValidationResultView) -> bool {
    &&& !r.allow
    &&& r.matched_route is None
    &&& r.finding is Some
    &&& r.finding->0.attack_class == AttackClass::SchemaViolation
}

proof fn lemma_missing_header(required: Seq<Seq<char>>, h: Headers)
    ensures
        validation::first_missing_header(required, h) is None <==> forall|i: int|
            0 <= i < required.len() ==> headers::field_text(h, #[trigger] required[i]) is Some,
    decreases required.len(),
{
    if required.len() > 0 {
        let rest = required.drop_first();
        lemma_missing_header(rest, h);
        assert(forall|i: int| 0 <= i < rest.len() ==> #[trigger] rest[i] == required[i + 1]);
        if forall|i: int| 0 <= i < rest.len() ==> headers::field_text(h, #[trigger] rest[i]) is Some {
            assert forall|i: int| 0 < i < required.len() implies headers::field_text(
                h,
                #[trigger] required[i],
            ) is Some by {
                assert(rest[i - 1] == required[i]);
            }
        }
        if forall|i: int|
            0 <= i < required.len() ==> headers::field_text(h, #[trigger] required[i]) is Some {
            assert forall|i: int| 0 <= i < rest.len() implies headers::field_text(
                h,
                #[trigger] rest[i],
            ) is Some by {
                assert(headers::field_text(h, required[i + 1]) is Some);
            }
        }
    }
}

proof fn lemma_missing_parameter(
    required: Seq<Seq<char>>,
    table: Seq<(Seq<char>, Seq<char>)>,
)
    ensures
        validation::first_missing_parameter(required, table) is None <==> forall|i: int|
            0 <= i < required.len() ==> pairs::position_of(table, #[trigger] required[i]) is Some,
    decreases required.len(),
{
    if required.len() > 0 {
        let rest = required.drop_first();
        lemma_missing_parameter(rest, table);
        assert(forall|i: int| 0 <= i < rest.len() ==> #[trigger] rest[i] == required[i + 1]);
        if forall|i: int|
            0 <= i < rest.len() ==> pairs::position_of(table, #[trigger] rest[i]) is Some {
            assert forall|i: int| 0 < i < required.len() implies pairs::position_of(
                table,
                #[trigger] required[i],
            ) is Some by {
                assert(rest[i - 1] == required[i]);
            }
        }
        if forall|i: int|
            0 <= i < required.len() ==> pairs::position_of(table, #[trigger] required[i]) is Some {
            assert forall|i: int| 0 <= i < rest.len() implies pairs::position_of(
                table,
                #[trigger] rest[i],
            ) is Some by {
                assert(pairs::position_of(table, required[i + 1]) is Some);
            }
        }
    }
}

/// Whether a request has everything that its route declares of its headers and its query.
pub open spec fn has_declared_head(
    route: CompiledRouteSpecView,
    request: RequestContext,
    h: Headers,
) -> bool {
    let query = identity::query_table(request.query.deep_view());
    &&& forall|i: int|
        0 <= i < route.required_headers.len() ==> headers::field_text(
            h,
            #[trigger] route.required_headers[i],
        ) is Some
    &&& forall|i: int|
        0 <= i < route.required_query.len() ==> pairs::position_of(
            query,
            #[trigger] route.required_query[i],
        ) is Some
}

/// A request to a declared route is accepted, as one of that route, exactly where it has the
/// declared headers and parameters, credentials where they are asked for, and a body as declared;
/// else it is turned away with a finding. It is turned away for want of credentials exactly where
/// they are all that is missing from its head.
pub proof fn law_declared_route(
    config: AppConfig,
    policy: LivePolicyState,
    request: RequestContext,
    path: Seq<char>,
    h: Headers,
    parsed: Option<JsonNodeView>,
)
    requires
        config.spec.enabled,
        routes::match_in(routes::compiled_routes(config), request.method@, path) is Some,
    ensures
        ({
            let r = validation::validation_of(config, policy, request, path, h, parsed);
            let route = routes::match_in(
                routes::compiled_routes(config),
                request.method@,
                path,
            )->0;
            let head = has_declared_head(route, request, h);
            let trusted = !route.auth_required || has_credentials(config, h);
            let body = is_declared_body(route.body, request.body_preview.deep_view(), parsed);
            &&& if head && trusted && body {
                r.allow && r.finding is None && r.matched_route == Some(route.path_template)
            } else {
                is_refusal(r)
            }
            &&& (r.finding is Some && r.finding->0.rule_id == "schema.auth_required"@) == (head
                && !trusted)
            &&& head && !trusted ==> r.finding->0.severity == Severity::High
        }),
{
    reveal_strlit("schema.auth_required");
    reveal_strlit("schema.missing_required_header");
    reveal_strlit("schema.missing_required_query");
    reveal_strlit("schema.body_required");
    reveal_strlit("schema.invalid_json");
    reveal_strlit("schema.max_depth");
    reveal_strlit("schema.max_fields");
    assert("schema.auth_required"@.len() == 20 && "schema.auth_required"@[7] == 'a');
    assert("schema.body_required"@[7] == 'b');
    assert("schema.missing_required_header"@.len() == 30);
    assert("schema.missing_required_query"@.len() == 29);
    assert("schema.invalid_json"@.len() == 19);
    assert("schema.max_depth"@.len() == 16);
    assert("schema.max_fields"@.len() == 17);
    let route = routes::match_in(routes::compiled_routes(config), request.method@, path)->0;
    let query = identity::query_table(request.query.deep_view());
    lemma_missing_header(route.required_headers, h);
    lemma_missing_parameter(route.required_query, query);
    if parsed is Some {
        lemma_fields(policy, request.path@, parsed->0, route.body.required_fields);
    }
}

/// Where the interface is not enforced every request is accepted without a finding. Where it is, a
/// request to no declared route is reported, gravest where such requests are to be blocked, and
/// accepted unless they are.
pub proof fn law_undeclared_route(
    config: AppConfig,
    policy: LivePolicyState,
    request: RequestContext,
    path: Seq<char>,
    h: Headers,
    parsed: Option<JsonNodeView>,
)
    requires
        !config.spec.enabled || routes::match_in(
            routes::compiled_routes(config),
            request.method@,
            path,
        ) is None,
    ensures
        ({
            let r = validation::validation_of(config, policy, request, path, h, parsed);
            let mode = config.spec.unknown_route_mode;
            &&& r.matched_route is None
            &&& r.allow == (!config.spec.enabled || mode != SpecUnknownRouteMode::Block)
            &&& r.finding is Some == config.spec.enabled
            &&& config.spec.enabled ==> {
                let f = r.finding->0;
                &&& f.rule_id == "schema.unknown_route"@
                &&& f.attack_class == AttackClass::SchemaViolation
                &&& (f.severity == Severity::High) == (mode == SpecUnknownRouteMode::Block)
                &&& (f.severity == Severity::Medium) == (mode == SpecUnknownRouteMode::Detect)
                &&& (f.severity == Severity::Low) == (mode == SpecUnknownRouteMode::Allow)
            }
        }),
{
}

} // verus!
