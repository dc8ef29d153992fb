//! What the inspection of a response reports.

use crate::config::AppConfig;
use crate::contracts;
use crate::headers;
use crate::headers::Headers;
use crate::json;
use crate::json::JsonNodeView;
use crate::laws;
use crate::proxy;
use crate::routes;
use crate::text;
use crate::types;
use crate::types::{
    AttackClass, FindingView, LivePolicyState, RequestContext, ResponseContractView, Severity,
};
use vstd::prelude::*;

verus! {

/// Whether every finding about a response has the class, the severity and the mode of its rule.
pub open spec fn responses_graded(
    policy: LivePolicyState,
    path: Seq<char>,
    found: Seq<FindingView>,
) -> bool {
    forall|i: int|
        0 <= i < found.len() ==> {
            let f = #[trigger] found[i];
            &&& f.mode == types::rule_mode_of(policy, path, f.rule_id)
            &&& f.rule_id == "response.debug_leak"@ ==> f.attack_class == AttackClass::ResponseLeak
                && f.severity == Severity::High && f.confidence == 950_000
            &&& f.rule_id == "response.token_exposure"@ ==> f.attack_class
                == AttackClass::ResponseLeak && f.severity == Severity::Critical && f.confidence
                == 960_000
            &&& f.rule_id == "response.oversharing"@ ==> f.attack_class == AttackClass::ResponseLeak
                && f.severity == Severity::Medium && f.confidence == 750_000
            &&& f.rule_id == "response.contract_mismatch"@ ==> f.attack_class
                == AttackClass::ResponseLeak && f.severity == Severity::Medium && f.confidence
                == 880_000
            &&& f.rule_id == "missing.x_content_type_options"@ || f.rule_id
                == "missing.x_frame_options"@ || f.rule_id == "missing.csp"@ ==> f.attack_class
                == AttackClass::MissingSecurityHeaders && f.severity == Severity::Low
                && f.confidence == 950_000
        }
}

proof fn lemma_rules_differ()
    ensures
        "response.debug_leak"@.len() == 19,
        "response.token_exposure"@.len() == 23 && "response.token_exposure"@[0] == 'r',
        "response.oversharing"@.len() == 20,
        "response.contract_mismatch"@.len() == 26,
        "missing.x_content_type_options"@.len() == 30,
        "missing.x_frame_options"@.len() == 23 && "missing.x_frame_options"@[0] == 'm',
        "missing.csp"@.len() == 11,
{
    reveal_strlit("response.debug_leak");
    reveal_strlit("response.token_exposure");
    reveal_strlit("response.oversharing");
    reveal_strlit("response.contract_mismatch");
    reveal_strlit("missing.x_content_type_options");
    reveal_strlit("missing.x_frame_options");
    reveal_strlit("missing.csp");
}

proof fn lemma_missing(required: Seq<Seq<char>>, h: Headers)
    ensures
        contracts::missing_headers_of(required, h).len() == 0 <==> forall|i: int|
            0 <= i < required.len() ==> headers::has_field(h, #[trigger] required[i]),
    decreases required.len(),
{
    if required.len() > 0 {
        let before = required.drop_last();
        lemma_missing(before, h);
        assert(forall|i: int| 0 <= i < before.len() ==> #[trigger] before[i] == required[i]);
        assert(required.last() == required[required.len() - 1]);
        if forall|i: int| 0 <= i < before.len() ==> headers::has_field(h, #[trigger] before[i]) {
            assert forall|i: int| 0 <= i < required.len() - 1 implies headers::has_field(
                h,
                #[trigger] required[i],
            ) by {
                assert(before[i] == required[i]);
            }
        }
    }
}

/// Whether a contract is that of a route.
pub open spec fn is_contract_of(
    c: ResponseContractView,
    method: Seq<char>,
    route: Seq<char>,
) -> bool {
    text::lower_of(c.method) == text::lower_of(method) && c.normalized_path == route
}

/// Whether a response is as a contract says: the status, the start of the content type, every
/// header.
pub open spec fn is_kept(c: ResponseContractView, status: u16, h: Headers) -> bool {
    let declared = headers::field_text(h, "content-type"@);
    &&& c.expected_status == status
    &&& match declared {
        Some(v) => text::has_prefix(v, c.expected_content_type_prefix),
        None => text::has_prefix(""@, c.expected_content_type_prefix),
    }
    &&& forall|i: int|
        0 <= i < c.required_headers.len() ==> headers::has_field(
            h,
            #[trigger] c.required_headers[i],
        )
}

/// The contract of a route is the first that is for it.
pub proof fn law_contract_of_route(
    all: Seq<ResponseContractView>,
    method: Seq<char>,
    route: Seq<char>,
)
    ensures
        match contracts::contract_for(all, method, route) {
            Some(c) => exists|i: int|
                0 <= i < all.len() && #[trigger] all[i] == c && is_contract_of(c, method, route)
                    && forall|j: int|
                    0 <= j < i ==> !is_contract_of(#[trigger] all[j], method, route),
            None => forall|i: int|
                0 <= i < all.len() ==> !is_contract_of(#[trigger] all[i], method, route),
        },
    decreases all.len(),
{
    if all.len() > 0 {
        let rest = all.drop_first();
        law_contract_of_route(rest, method, route);
        if is_contract_of(all[0], method, route) {
            assert(all[0] == contracts::contract_for(all, method, route)->0);
        } else {
            match contracts::contract_for(rest, method, route) {
                Some(c) => {
                    let i = choose|i: int|
                        0 <= i < rest.len() && #[trigger] rest[i] == c && is_contract_of(
                            c,
                            method,
                            route,
                        ) && forall|j: int|
                            0 <= j < i ==> !is_contract_of(#[trigger] rest[j], method, route);
                    assert(all[i + 1] == c);
                    assert forall|j: int| 0 <= j < i + 1 implies !is_contract_of(
                        #[trigger] all[j],
                        method,
                        route,
                    ) by {
                        if j > 0 {
                            assert(all[j] == rest[j - 1]);
                        }
                    }
                },
                None => {
                    assert forall|j: int| 0 <= j < all.len() implies !is_contract_of(
                        #[trigger] all[j],
                        method,
                        route,
                    ) by {
                        if j > 0 {
                            assert(all[j] == rest[j - 1]);
                        }
                    }
                },
            }
        }
    }
}

/// Debug output, tokens and too many fields in a response are reported where responses are
/// inspected; missing security headers and a broken contract always; and nothing of this otherwise.
pub proof fn law_response_reported(
    config: AppConfig,
    policy: LivePolicyState,
    all: Seq<ResponseContractView>,
    context: RequestContext,
    status: u16,
    h: Headers,
    body: Seq<char>,
    parsed: Option<JsonNodeView>,
)
    ensures
        ({
            let found = proxy::all_response_findings(
                config,
                policy,
                all,
                context,
                status,
                h,
                body,
                parsed,
            );
            let on = config.response_security.enabled;
            let lower = text::lower_of(body);
            let kind = headers::field_text(h, "content-type"@);
            let contract = contracts::contract_for(
                all,
                context.method@,
                routes::route_of(context.path@),
            );
            &&& laws::shows(found, "response.debug_leak"@) == (on && (text::has_part(
                lower,
                "traceback"@,
            ) || text::has_part(lower, "stack trace"@) || text::has_part(lower, "exception:"@)))
            &&& laws::shows(found, "response.token_exposure"@) == (on && (text::has_part(
                lower,
                "access_token"@,
            ) || text::has_part(lower, "refresh_token"@)))
            &&& laws::shows(found, "response.oversharing"@) == (on && kind is Some && text::has_part(
                text::lower_of(kind->0),
                "application/json"@,
            ) && parsed is Some && json::capped(json::field_count_of(parsed->0))
                > config.response_security.max_json_fields)
            &&& laws::shows(found, "missing.x_content_type_options"@) == !headers::has_field(
                h,
                "x-content-type-options"@,
            )
            &&& laws::shows(found, "missing.x_frame_options"@) == !headers::has_field(
                h,
                "x-frame-options"@,
            )
            &&& laws::shows(found, "missing.csp"@) == !headers::has_field(
                h,
                "content-security-policy"@,
            )
            &&& laws::shows(found, "response.contract_mismatch"@) == (contract is Some && !is_kept(
                contract->0,
                status,
                h,
            ))
            &&& responses_graded(policy, context.path@, found)
        }),
{
    broadcast use laws::group_findings;

    lemma_rules_differ();
    let route = routes::route_of(context.path@);
    let contract = contracts::contract_for(all, context.method@, route);
    if contract is Some {
        lemma_missing(contract->0.required_headers, h);
    }
}

} // verus!
