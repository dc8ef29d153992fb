//! What is exported of the routes and the contracts.

use crate::contracts;
use crate::exports;
use crate::exports::GatewayVariant;
use crate::records::ManagedSpecReleaseStateView;
use crate::text;
use crate::types::{ManagedSpecRouteView, ResponseContractView};
use vstd::prelude::*;

verus! {

/// Whether a contract is the first one for a route.
pub open spec fn is_contract_of(
    all: Seq<ResponseContractView>,
    route: ManagedSpecRouteView,
    i: int,
) -> bool {
    &&& 0 <= i < all.len()
    &&& all[i].normalized_path == route.normalized_path && text::lower_of(all[i].method)
        == text::lower_of(route.method)
    &&& forall|j: int|
        0 <= j < i ==> (#[trigger] all[j]).normalized_path != route.normalized_path
            || text::lower_of(all[j].method) != text::lower_of(route.method)
}

/// Whether a state is the first one about a route.
pub open spec fn is_state_of(
    all: Seq<ManagedSpecReleaseStateView>,
    route: ManagedSpecRouteView,
    i: int,
) -> bool {
    &&& 0 <= i < all.len()
    &&& all[i].normalized_path == route.normalized_path && text::lower_of(all[i].method)
        == text::lower_of(route.method)
    &&& forall|j: int|
        0 <= j < i ==> (#[trigger] all[j]).normalized_path != route.normalized_path
            || text::lower_of(all[j].method) != text::lower_of(route.method)
}

/// Whether no contract and no state is about a route.
pub open spec fn is_bare(
    all: Seq<ResponseContractView>,
    states: Seq<ManagedSpecReleaseStateView>,
    route: ManagedSpecRouteView,
) -> bool {
    &&& forall|i: int|
        0 <= i < all.len() ==> (#[trigger] all[i]).normalized_path != route.normalized_path
            || text::lower_of(all[i].method) != text::lower_of(route.method)
    &&& forall|i: int|
        0 <= i < states.len() ==> (#[trigger] states[i]).normalized_path != route.normalized_path
            || text::lower_of(states[i].method) != text::lower_of(route.method)
}

proof fn lemma_contract(all: Seq<ResponseContractView>, route: ManagedSpecRouteView, i: int)
    requires
        is_contract_of(all, route, i),
    ensures
        contracts::contract_for(all, route.method, route.normalized_path) == Some(all[i]),
    decreases all.len(),
{
    if i > 0 {
        let rest = all.drop_first();
        assert(all[0].normalized_path != route.normalized_path || text::lower_of(all[0].method)
            != text::lower_of(route.method));
        assert(rest[i - 1] == all[i]);
        assert forall|j: int| 0 <= j < i - 1 implies (#[trigger] rest[j]).normalized_path
            != route.normalized_path || text::lower_of(rest[j].method) != text::lower_of(
            route.method,
        ) by {
            assert(rest[j] == all[j + 1]);
        }
        lemma_contract(rest, route, i - 1);
    }
}

proof fn lemma_state(all: Seq<ManagedSpecReleaseStateView>, route: ManagedSpecRouteView, i: int)
    requires
        is_state_of(all, route, i),
    ensures
        contracts::channel_for(all, route.method, route.normalized_path) == Some(all[i].channel),
    decreases all.len(),
{
    if i > 0 {
        let rest = all.drop_first();
        assert(all[0].normalized_path != route.normalized_path || text::lower_of(all[0].method)
            != text::lower_of(route.method));
        assert(rest[i - 1] == all[i]);
        assert forall|j: int| 0 <= j < i - 1 implies (#[trigger] rest[j]).normalized_path
            != route.normalized_path || text::lower_of(rest[j].method) != text::lower_of(
            route.method,
        ) by {
            assert(rest[j] == all[j + 1]);
        }
        lemma_state(rest, route, i - 1);
    }
}

proof fn lemma_bare(
    all: Seq<ResponseContractView>,
    states: Seq<ManagedSpecReleaseStateView>,
    route: ManagedSpecRouteView,
)
    requires
        is_bare(all, states, route),
    ensures
        contracts::contract_for(all, route.method, route.normalized_path) is None,
        contracts::channel_for(states, route.method, route.normalized_path) is None,
    decreases all.len() + states.len(),
{
    if all.len() > 0 {
        let rest = all.drop_first();
        assert(forall|j: int| 0 <= j < rest.len() ==> #[trigger] rest[j] == all[j + 1]);
        assert(all[0].normalized_path != route.normalized_path || text::lower_of(all[0].method)
            != text::lower_of(route.method));
        lemma_bare(rest, states, route);
    } else if states.len() > 0 {
        let rest = states.drop_first();
        assert(forall|j: int| 0 <= j < rest.len() ==> #[trigger] rest[j] == states[j + 1]);
        assert(states[0].normalized_path != route.normalized_path || text::lower_of(
            states[0].method,
        ) != text::lower_of(route.method));
        lemma_bare(all, rest, route);
    }
}

/// Every form of an export says of a route its method, its path and whether it needs credentials,
/// with what its contract expects and the channel that it is on.
pub proof fn law_route_exported(
    route: ManagedSpecRouteView,
    all: Seq<ResponseContractView>,
    states: Seq<ManagedSpecReleaseStateView>,
    i: int,
    j: int,
)
    requires
        is_contract_of(all, route, i),
        is_state_of(states, route, j),
    ensures
        ({
            let e = exports::gateway_route(route, all);
            &&& e.method == route.method && e.path == route.normalized_path
            &&& e.auth_required == route.auth_required
            &&& e.expected_status == Some(all[i].expected_status)
            &&& e.expected_content_type_prefix == Some(all[i].expected_content_type_prefix)
            &&& e.required_headers == all[i].required_headers
        }),
        ({
            let e = exports::enforcement_route(route, all, states);
            &&& e.method == route.method && e.path == route.normalized_path
            &&& e.auth_required == route.auth_required
            &&& e.expected_status == Some(all[i].expected_status)
            &&& e.expected_content_type_prefix == Some(all[i].expected_content_type_prefix)
            &&& e.required_headers == all[i].required_headers
            &&& e.release_channel == Some(states[j].channel)
        }),
        ({
            let e = exports::policy_route(route, all, states);
            &&& e.method == route.method && e.path == route.normalized_path
            &&& e.auth_required == route.auth_required
            &&& e.required_headers == all[i].required_headers
            &&& e.release_channel == Some(states[j].channel)
        }),
        ({
            let e = exports::envoy_route(route, states);
            &&& e.method == route.method && e.match_path == route.normalized_path
            &&& e.auth_required == route.auth_required
            &&& e.release_channel == Some(states[j].channel)
        }),
        ({
            let e = exports::kong_service(route, all, states);
            &&& e.method == route.method && e.path == route.normalized_path
            &&& e.auth_required == route.auth_required
            &&& e.required_headers == all[i].required_headers
            &&& e.release_channel == Some(states[j].channel)
        }),
        ({
            let e = exports::managed_route(route, all);
            &&& e.method == route.method && e.normalized_path == route.normalized_path
            &&& e.auth_required == route.auth_required
            &&& e.expected_response is Some
            &&& e.expected_response->0.expected_status == all[i].expected_status
            &&& e.expected_response->0.expected_content_type_prefix
                == all[i].expected_content_type_prefix
            &&& e.expected_response->0.required_headers == all[i].required_headers
        }),
{
    lemma_contract(all, route, i);
    lemma_state(states, route, j);
}

/// A route without a contract and without a state is exported with none.
pub proof fn law_bare_route_exported(
    route: ManagedSpecRouteView,
    all: Seq<ResponseContractView>,
    states: Seq<ManagedSpecReleaseStateView>,
)
    requires
        is_bare(all, states, route),
    ensures
        ({
            let e = exports::gateway_route(route, all);
            &&& e.auth_required == route.auth_required && e.expected_status is None
            &&& e.expected_content_type_prefix is None && e.required_headers.len() == 0
        }),
        ({
            let e = exports::enforcement_route(route, all, states);
            &&& e.auth_required == route.auth_required && e.expected_status is None
            &&& e.expected_content_type_prefix is None && e.required_headers.len() == 0
            &&& e.release_channel is None
        }),
        ({
            let e = exports::policy_route(route, all, states);
            &&& e.auth_required == route.auth_required && e.required_headers.len() == 0
            &&& e.release_channel is None
        }),
        ({
            let e = exports::envoy_route(route, states);
            e.auth_required == route.auth_required && e.release_channel is None
        }),
        ({
            let e = exports::kong_service(route, all, states);
            &&& e.auth_required == route.auth_required && e.required_headers.len() == 0
            &&& e.release_channel is None
        }),
        ({
            let e = exports::managed_route(route, all);
            e.auth_required == route.auth_required && e.expected_response is None
        }),
{
    lemma_bare(all, states, route);
}

/// The form for routing alone says nothing else of a route.
pub proof fn law_routing_exported(route: ManagedSpecRouteView)
    ensures
        ({
            let e = exports::routing_route(route);
            &&& e.method == route.method && e.path == route.normalized_path
            &&& e.auth_required == route.auth_required
        }),
{
}

proof fn lemma_replaced(s: Seq<char>, from: char, to: Seq<char>)
    ensures
        to.len() == 1 ==> text::replaced_of(s, from, to) == s.map_values(
            |c: char|
                if c == from {
                    to[0]
                } else {
                    c
                },
        ),
        to.len() == 0 ==> text::replaced_of(s, from, to) == s.filter(|c: char| c != from),
    decreases s.len(),
{
    reveal(Seq::filter);
    if s.len() > 0 {
        lemma_replaced(s.drop_last(), from, to);
    }
    if to.len() == 1 {
        assert(text::replaced_of(s, from, to) =~= s.map_values(
            |c: char|
                if c == from {
                    to[0]
                } else {
                    c
                },
        ));
    }
    if to.len() == 0 {
        assert(text::replaced_of(s, from, to) =~= s.filter(|c: char| c != from));
    }
}

/// The name of a service is the method in small letters, a hyphen, and the path with hyphens for
/// slashes and without braces.
pub proof fn law_service_name(
    route: ManagedSpecRouteView,
    all: Seq<ResponseContractView>,
    states: Seq<ManagedSpecReleaseStateView>,
)
    ensures
        exports::kong_service(route, all, states).name == text::lower_of(route.method) + seq!['-']
            + route.normalized_path.map_values(
            |c: char|
                if c == '/' {
                    '-'
                } else {
                    c
                },
        ).filter(|c: char| c != '{').filter(|c: char| c != '}'),
{
    reveal_strlit("-");
    reveal_strlit("");
    assert("-"@ =~= seq!['-']);
    assert(""@.len() == 0);
    let path = route.normalized_path;
    lemma_replaced(path, '/', "-"@);
    let one = text::replaced_of(path, '/', "-"@);
    assert(one =~= path.map_values(
        |c: char|
            if c == '/' {
                '-'
            } else {
                c
            },
    ));
    lemma_replaced(one, '{', ""@);
    let two = text::replaced_of(one, '{', ""@);
    lemma_replaced(two, '}', ""@);
}

/// The form of an export goes by its name.
pub proof fn law_variant(name: Seq<char>)
    ensures
        exports::variant_of(name) == GatewayVariant::RoutingOnly <==> name
            == "gateway-routing-only"@,
        exports::variant_of(name) == GatewayVariant::Enforcement <==> name
            == "gateway-enforcement"@,
{
    reveal_strlit("gateway-routing-only");
    reveal_strlit("gateway-enforcement");
    assert("gateway-routing-only"@[8] == 'r' && "gateway-enforcement"@[8] == 'e');
}

} // verus!
