//! The inventory of managed routes in the forms that gateways read.

use crate::contracts;
use crate::records::{
    ApiGatewayPolicyExport, ApiGatewayPolicyExportView, ApiGatewayPolicyRoute,
    ApiGatewayPolicyRouteView, EnforcementManagedRoute, EnforcementManagedRouteView,
    EnforcementManagedSpecExport, EnforcementManagedSpecExportView, EnforcementResponseContract,
    EnforcementResponseContractView, EnvoyRouteExport, EnvoyRouteExportView, EnvoyRouteRecord,
    EnvoyRouteRecordView, ExportManifest, ExportManifestView, GatewayEnforcementExport,
    GatewayEnforcementExportView, GatewayEnforcementRoute, GatewayEnforcementRouteView,
    GatewayManagedSpecExport, GatewayManagedSpecExportView, GatewayRoutePolicyExport,
    GatewayRoutePolicyExportView, GatewayRoutingOnlyExport, GatewayRoutingOnlyExportView,
    GatewayRoutingOnlyRoute, GatewayRoutingOnlyRouteView, KongRouteExport, KongRouteExportView,
    KongServiceExport, KongServiceExportView, ManagedSpecExport, ManagedSpecExportView,
    ManagedSpecReleaseState, ManagedSpecReleaseStateView,
};
use crate::text;
use crate::types::{
    ManagedSpecRoute, ManagedSpecRouteView, ResponseContract, ResponseContractView, Timestamp,
};
use vstd::prelude::*;

verus! {

/// The headers that a contract requires, none where there is no contract.
pub open spec fn required_by(contract: Option<ResponseContractView>) -> Seq<Seq<char>> {
    match contract {
        Some(c) => c.required_headers,
        None => Seq::empty(),
    }
}

pub open spec fn status_by(contract: Option<ResponseContractView>) -> Option<u16> {
    match contract {
        Some(c) => Some(c.expected_status),
        None => None,
    }
}

pub open spec fn type_by(contract: Option<ResponseContractView>) -> Option<Seq<char>> {
    match contract {
        Some(c) => Some(c.expected_content_type_prefix),
        None => None,
    }
}

fn required_headers(contract: Option<&ResponseContract>) -> (r: Vec<String>)
    ensures
        r.deep_view() == required_by(contract.deep_view()),
{
    match contract {
        Some(c) => text::clone_list(&c.required_headers),
        None => {
            let none: Vec<String> = Vec::new();
            assert(none.deep_view() =~= Seq::empty());
            none
        },
    }
}

fn expected_status(contract: Option<&ResponseContract>) -> (r: Option<u16>)
    ensures
        r == status_by(contract.deep_view()),
{
    match contract {
        Some(c) => Some(c.expected_status),
        None => None,
    }
}

fn expected_type(contract: Option<&ResponseContract>) -> (r: Option<String>)
    ensures
        r.deep_view() == type_by(contract.deep_view()),
{
    match contract {
        Some(c) => Some(c.expected_content_type_prefix.clone()),
        None => None,
    }
}

/// A route with what it is expected to answer.
pub open spec fn gateway_route(
    route: ManagedSpecRouteView,
    contracts: Seq<ResponseContractView>,
) -> GatewayRoutePolicyExportView {
    let contract = contracts::contract_for(
        contracts,
        route.method,
        route.normalized_path,
    );
    GatewayRoutePolicyExportView {
        method: route.method,
        path: route.normalized_path,
        auth_required: route.auth_required,
        expected_status: status_by(contract),
        expected_content_type_prefix: type_by(contract),
        required_headers: required_by(contract),
    }
}

/// The routes with what they are expected to answer.
pub fn export_gateway_managed_spec_inventory(
    managed_routes: &Vec<ManagedSpecRoute>,
    contracts: &Vec<ResponseContract>,
    now: Timestamp,
) -> (r: GatewayManagedSpecExport)
    ensures
        r.deep_view() == (GatewayManagedSpecExportView {
            exported_at: now,
            schema_version: "gateway-v1"@,
            routes: managed_routes.deep_view().map_values(
                |route: ManagedSpecRouteView| gateway_route(
                    route,
                    contracts.deep_view(),
                ),
            ),
        }),
{
    let ghost all = managed_routes.deep_view().map_values(
        |route: ManagedSpecRouteView| gateway_route(
            route,
            contracts.deep_view(),
        ),
    );
    let mut rows: Vec<GatewayRoutePolicyExport> = Vec::new();
    let mut i: usize = 0;
    assert(rows.deep_view() =~= all.take(0));
    while i < managed_routes.len()
        invariant
            i <= managed_routes@.len(),
            all == managed_routes.deep_view().map_values(
                |route: ManagedSpecRouteView| gateway_route(
                    route,
                    contracts.deep_view(),
                ),
            ),
            rows.deep_view() == all.take(i as int),
        decreases managed_routes@.len() - i,
    {
        let route = &managed_routes[i];
        let contract = contracts::find_contract(
            contracts,
            route.method.as_str(),
            route.normalized_path.as_str(),
        );
        let row = GatewayRoutePolicyExport {
            method: route.method.clone(),
            path: route.normalized_path.clone(),
            auth_required: route.auth_required,
            expected_status: expected_status(contract),
            expected_content_type_prefix: expected_type(contract),
            required_headers: required_headers(contract),
        };
        let ghost before = rows.deep_view();
        let ghost view = row.deep_view();
        assert(view =~= all[i as int]);
        rows.push(row);
        assert(rows.deep_view() =~= before.push(view));
        i = i + 1;
        assert(rows.deep_view() =~= all.take(i as int));
    }
    assert(rows.deep_view() =~= all);
    GatewayManagedSpecExport {
        exported_at: now,
        schema_version: "gateway-v1".to_string(),
        routes: rows,
    }
}

/// A route alone.
pub open spec fn routing_route(route: ManagedSpecRouteView) -> GatewayRoutingOnlyRouteView {
    GatewayRoutingOnlyRouteView {
        method: route.method,
        path: route.normalized_path,
        auth_required: route.auth_required,
    }
}

/// The routes alone.
pub fn export_gateway_routing_only_inventory(
    managed_routes: &Vec<ManagedSpecRoute>,
    now: Timestamp,
) -> (r: GatewayRoutingOnlyExport)
    ensures
        r.deep_view() == (GatewayRoutingOnlyExportView {
            exported_at: now,
            schema_version: "gateway-routing-only-v1"@,
            routes: managed_routes.deep_view().map_values(
                |route: ManagedSpecRouteView| routing_route(route),
            ),
        }),
{
    let ghost all = managed_routes.deep_view().map_values(
        |route: ManagedSpecRouteView| routing_route(route),
    );
    let mut rows: Vec<GatewayRoutingOnlyRoute> = Vec::new();
    let mut i: usize = 0;
    assert(rows.deep_view() =~= all.take(0));
    while i < managed_routes.len()
        invariant
            i <= managed_routes@.len(),
            all == managed_routes.deep_view().map_values(
                |route: ManagedSpecRouteView| routing_route(route),
            ),
            rows.deep_view() == all.take(i as int),
        decreases managed_routes@.len() - i,
    {
        let route = &managed_routes[i];
        let row = GatewayRoutingOnlyRoute {
            method: route.method.clone(),
            path: route.normalized_path.clone(),
            auth_required: route.auth_required,
        };
        let ghost before = rows.deep_view();
        let ghost view = row.deep_view();
        assert(view =~= all[i as int]);
        rows.push(row);
        assert(rows.deep_view() =~= before.push(view));
        i = i + 1;
        assert(rows.deep_view() =~= all.take(i as int));
    }
    assert(rows.deep_view() =~= all);
    GatewayRoutingOnlyExport {
        exported_at: now,
        schema_version: "gateway-routing-only-v1".to_string(),
        routes: rows,
    }
}

/// A route with its contract and release channel.
pub open spec fn enforcement_route(
    route: ManagedSpecRouteView,
    contracts: Seq<ResponseContractView>,
    states: Seq<ManagedSpecReleaseStateView>,
) -> GatewayEnforcementRouteView {
    let contract = contracts::contract_for(
        contracts,
        route.method,
        route.normalized_path,
    );
    GatewayEnforcementRouteView {
        method: route.method,
        path: route.normalized_path,
        auth_required: route.auth_required,
        expected_status: status_by(contract),
        expected_content_type_prefix: type_by(contract),
        required_headers: required_by(contract),
        release_channel: contracts::channel_for(states, route.method, route.normalized_path),
    }
}

/// The routes with what they are expected to answer and how far they have come to release.
pub fn export_gateway_enforcement_inventory(
    managed_routes: &Vec<ManagedSpecRoute>,
    contracts: &Vec<ResponseContract>,
    states: &Vec<ManagedSpecReleaseState>,
    now: Timestamp,
) -> (r: GatewayEnforcementExport)
    ensures
        r.deep_view() == (GatewayEnforcementExportView {
            exported_at: now,
            schema_version: "gateway-enforcement-v1"@,
            routes: managed_routes.deep_view().map_values(
                |route: ManagedSpecRouteView| enforcement_route(
                    route,
                    contracts.deep_view(),
                    states.deep_view(),
                ),
            ),
        }),
{
    let ghost all = managed_routes.deep_view().map_values(
        |route: ManagedSpecRouteView| enforcement_route(
            route,
            contracts.deep_view(),
            states.deep_view(),
        ),
    );
    let mut rows: Vec<GatewayEnforcementRoute> = Vec::new();
    let mut i: usize = 0;
    assert(rows.deep_view() =~= all.take(0));
    while i < managed_routes.len()
        invariant
            i <= managed_routes@.len(),
            all == managed_routes.deep_view().map_values(
                |route: ManagedSpecRouteView| enforcement_route(
                    route,
                    contracts.deep_view(),
                    states.deep_view(),
                ),
            ),
            rows.deep_view() == all.take(i as int),
        decreases managed_routes@.len() - i,
    {
        let route = &managed_routes[i];
        let contract = contracts::find_contract(
            contracts,
            route.method.as_str(),
            route.normalized_path.as_str(),
        );
        let release_channel = contracts::find_channel(
            states,
            route.method.as_str(),
            route.normalized_path.as_str(),
        );
        let row = GatewayEnforcementRoute {
            method: route.method.clone(),
            path: route.normalized_path.clone(),
            auth_required: route.auth_required,
            expected_status: expected_status(contract),
            expected_content_type_prefix: expected_type(contract),
            required_headers: required_headers(contract),
            release_channel,
        };
        let ghost before = rows.deep_view();
        let ghost view = row.deep_view();
        assert(view =~= all[i as int]);
        rows.push(row);
        assert(rows.deep_view() =~= before.push(view));
        i = i + 1;
        assert(rows.deep_view() =~= all.take(i as int));
    }
    assert(rows.deep_view() =~= all);
    GatewayEnforcementExport {
        exported_at: now,
        schema_version: "gateway-enforcement-v1".to_string(),
        routes: rows,
    }
}

/// A route with its required headers and release channel.
pub open spec fn policy_route(
    route: ManagedSpecRouteView,
    contracts: Seq<ResponseContractView>,
    states: Seq<ManagedSpecReleaseStateView>,
) -> ApiGatewayPolicyRouteView {
    let contract = contracts::contract_for(
        contracts,
        route.method,
        route.normalized_path,
    );
    ApiGatewayPolicyRouteView {
        method: route.method,
        path: route.normalized_path,
        auth_required: route.auth_required,
        required_headers: required_by(contract),
        release_channel: contracts::channel_for(states, route.method, route.normalized_path),
    }
}

/// The routes with their required headers and release channels.
pub fn export_api_gateway_policy_inventory(
    managed_routes: &Vec<ManagedSpecRoute>,
    contracts: &Vec<ResponseContract>,
    states: &Vec<ManagedSpecReleaseState>,
    now: Timestamp,
) -> (r: ApiGatewayPolicyExport)
    ensures
        r.deep_view() == (ApiGatewayPolicyExportView {
            exported_at: now,
            schema_version: "api-gateway-policy-v1"@,
            routes: managed_routes.deep_view().map_values(
                |route: ManagedSpecRouteView| policy_route(
                    route,
                    contracts.deep_view(),
                    states.deep_view(),
                ),
            ),
        }),
{
    let ghost all = managed_routes.deep_view().map_values(
        |route: ManagedSpecRouteView| policy_route(
            route,
            contracts.deep_view(),
            states.deep_view(),
        ),
    );
    let mut rows: Vec<ApiGatewayPolicyRoute> = Vec::new();
    let mut i: usize = 0;
    assert(rows.deep_view() =~= all.take(0));
    while i < managed_routes.len()
        invariant
            i <= managed_routes@.len(),
            all == managed_routes.deep_view().map_values(
                |route: ManagedSpecRouteView| policy_route(
                    route,
                    contracts.deep_view(),
                    states.deep_view(),
                ),
            ),
            rows.deep_view() == all.take(i as int),
        decreases managed_routes@.len() - i,
    {
        let route = &managed_routes[i];
        let contract = contracts::find_contract(
            contracts,
            route.method.as_str(),
            route.normalized_path.as_str(),
        );
        let release_channel = contracts::find_channel(
            states,
            route.method.as_str(),
            route.normalized_path.as_str(),
        );
        let row = ApiGatewayPolicyRoute {
            method: route.method.clone(),
            path: route.normalized_path.clone(),
            auth_required: route.auth_required,
            required_headers: required_headers(contract),
            release_channel,
        };
        let ghost before = rows.deep_view();
        let ghost view = row.deep_view();
        assert(view =~= all[i as int]);
        rows.push(row);
        assert(rows.deep_view() =~= before.push(view));
        i = i + 1;
        assert(rows.deep_view() =~= all.take(i as int));
    }
    assert(rows.deep_view() =~= all);
    ApiGatewayPolicyExport {
        exported_at: now,
        schema_version: "api-gateway-policy-v1".to_string(),
        routes: rows,
    }
}

/// A route as Envoy matches it.
pub open spec fn envoy_route(
    route: ManagedSpecRouteView,
    states: Seq<ManagedSpecReleaseStateView>,
) -> EnvoyRouteRecordView {
    EnvoyRouteRecordView {
        match_path: route.normalized_path,
        method: route.method,
        auth_required: route.auth_required,
        release_channel: contracts::channel_for(states, route.method, route.normalized_path),
    }
}

/// The routes as Envoy matches them.
pub fn export_envoy_inventory(
    managed_routes: &Vec<ManagedSpecRoute>,
    states: &Vec<ManagedSpecReleaseState>,
    now: Timestamp,
) -> (r: EnvoyRouteExport)
    ensures
        r.deep_view() == (EnvoyRouteExportView {
            exported_at: now,
            schema_version: "envoy-v1"@,
            routes: managed_routes.deep_view().map_values(
                |route: ManagedSpecRouteView| envoy_route(
                    route,
                    states.deep_view(),
                ),
            ),
        }),
{
    let ghost all = managed_routes.deep_view().map_values(
        |route: ManagedSpecRouteView| envoy_route(
            route,
            states.deep_view(),
        ),
    );
    let mut rows: Vec<EnvoyRouteRecord> = Vec::new();
    let mut i: usize = 0;
    assert(rows.deep_view() =~= all.take(0));
    while i < managed_routes.len()
        invariant
            i <= managed_routes@.len(),
            all == managed_routes.deep_view().map_values(
                |route: ManagedSpecRouteView| envoy_route(
                    route,
                    states.deep_view(),
                ),
            ),
            rows.deep_view() == all.take(i as int),
        decreases managed_routes@.len() - i,
    {
        let route = &managed_routes[i];
        let release_channel = contracts::find_channel(
            states,
            route.method.as_str(),
            route.normalized_path.as_str(),
        );
        let row = EnvoyRouteRecord {
            match_path: route.normalized_path.clone(),
            method: route.method.clone(),
            auth_required: route.auth_required,
            release_channel,
        };
        let ghost before = rows.deep_view();
        let ghost view = row.deep_view();
        assert(view =~= all[i as int]);
        rows.push(row);
        assert(rows.deep_view() =~= before.push(view));
        i = i + 1;
        assert(rows.deep_view() =~= all.take(i as int));
    }
    assert(rows.deep_view() =~= all);
    EnvoyRouteExport {
        exported_at: now,
        schema_version: "envoy-v1".to_string(),
        routes: rows,
    }
}

/// The name of a Kong service: the method and the path with dashes for slashes, without braces.
pub open spec fn kong_name(method: Seq<char>, path: Seq<char>) -> Seq<char> {
    text::lower_of(method) + "-"@ + text::replaced_of(
        text::replaced_of(text::replaced_of(path, '/', "-"@), '{', ""@),
        '}',
        ""@,
    )
}

/// A route as a Kong service.
pub open spec fn kong_service(
    route: ManagedSpecRouteView,
    contracts: Seq<ResponseContractView>,
    states: Seq<ManagedSpecReleaseStateView>,
) -> KongServiceExportView {
    let contract = contracts::contract_for(
        contracts,
        route.method,
        route.normalized_path,
    );
    KongServiceExportView {
        name: kong_name(route.method, route.normalized_path),
        method: route.method,
        path: route.normalized_path,
        auth_required: route.auth_required,
        required_headers: required_by(contract),
        release_channel: contracts::channel_for(states, route.method, route.normalized_path),
    }
}

/// The routes as Kong services.
pub fn export_kong_inventory(
    managed_routes: &Vec<ManagedSpecRoute>,
    contracts: &Vec<ResponseContract>,
    states: &Vec<ManagedSpecReleaseState>,
    now: Timestamp,
) -> (r: KongRouteExport)
    ensures
        r.deep_view() == (KongRouteExportView {
            exported_at: now,
            schema_version: "kong-v1"@,
            services: managed_routes.deep_view().map_values(
                |route: ManagedSpecRouteView| kong_service(
                    route,
                    contracts.deep_view(),
                    states.deep_view(),
                ),
            ),
        }),
{
    let ghost all = managed_routes.deep_view().map_values(
        |route: ManagedSpecRouteView| kong_service(
            route,
            contracts.deep_view(),
            states.deep_view(),
        ),
    );
    let mut rows: Vec<KongServiceExport> = Vec::new();
    let mut i: usize = 0;
    assert(rows.deep_view() =~= all.take(0));
    while i < managed_routes.len()
        invariant
            i <= managed_routes@.len(),
            all == managed_routes.deep_view().map_values(
                |route: ManagedSpecRouteView| kong_service(
                    route,
                    contracts.deep_view(),
                    states.deep_view(),
                ),
            ),
            rows.deep_view() == all.take(i as int),
        decreases managed_routes@.len() - i,
    {
        let route = &managed_routes[i];
        let contract = contracts::find_contract(
            contracts,
            route.method.as_str(),
            route.normalized_path.as_str(),
        );
        let release_channel = contracts::find_channel(
            states,
            route.method.as_str(),
            route.normalized_path.as_str(),
        );
        let lower = text::to_ascii_lowercase(route.method.as_str());
        let dashed = text::replace_char(route.normalized_path.as_str(), '/', "-");
        let opened = text::replace_char(dashed.as_str(), '{', "");
        let plain = text::replace_char(opened.as_str(), '}', "");
        let name = text::cat3(lower.as_str(), "-", plain.as_str());
        let row = KongServiceExport {
            name,
            method: route.method.clone(),
            path: route.normalized_path.clone(),
            auth_required: route.auth_required,
            required_headers: required_headers(contract),
            release_channel,
        };
        let ghost before = rows.deep_view();
        let ghost view = row.deep_view();
        assert(view =~= all[i as int]);
        rows.push(row);
        assert(rows.deep_view() =~= before.push(view));
        i = i + 1;
        assert(rows.deep_view() =~= all.take(i as int));
    }
    assert(rows.deep_view() =~= all);
    KongRouteExport {
        exported_at: now,
        schema_version: "kong-v1".to_string(),
        services: rows,
    }
}

/// What a route is expected to answer, where there is a contract.
pub open spec fn answer_by(contract: Option<ResponseContractView>) -> Option<
    EnforcementResponseContractView,
> {
    match contract {
        Some(c) => Some(
            EnforcementResponseContractView {
                expected_status: c.expected_status,
                expected_content_type_prefix: c.expected_content_type_prefix,
                required_headers: c.required_headers,
            },
        ),
        None => None,
    }
}

fn expected_answer(contract: Option<&ResponseContract>) -> (r: Option<EnforcementResponseContract>)
    ensures
        r.deep_view() == answer_by(contract.deep_view()),
{
    match contract {
        Some(c) => Some(
            EnforcementResponseContract {
                expected_status: c.expected_status,
                expected_content_type_prefix: c.expected_content_type_prefix.clone(),
                required_headers: text::clone_list(&c.required_headers),
            },
        ),
        None => None,
    }
}

/// A route with its contract.
pub open spec fn managed_route(
    route: ManagedSpecRouteView,
    contracts: Seq<ResponseContractView>,
) -> EnforcementManagedRouteView {
    let contract = contracts::contract_for(
        contracts,
        route.method,
        route.normalized_path,
    );
    EnforcementManagedRouteView {
        method: route.method,
        normalized_path: route.normalized_path,
        auth_required: route.auth_required,
        expected_response: answer_by(contract),
    }
}

/// The routes with their contracts.
pub fn export_enforcement_managed_spec_inventory(
    managed_routes: &Vec<ManagedSpecRoute>,
    contracts: &Vec<ResponseContract>,
    now: Timestamp,
) -> (r: EnforcementManagedSpecExport)
    ensures
        r.deep_view() == (EnforcementManagedSpecExportView {
            exported_at: now,
            version: "v1"@,
            routes: managed_routes.deep_view().map_values(
                |route: ManagedSpecRouteView| managed_route(
                    route,
                    contracts.deep_view(),
                ),
            ),
        }),
{
    let ghost all = managed_routes.deep_view().map_values(
        |route: ManagedSpecRouteView| managed_route(
            route,
            contracts.deep_view(),
        ),
    );
    let mut rows: Vec<EnforcementManagedRoute> = Vec::new();
    let mut i: usize = 0;
    assert(rows.deep_view() =~= all.take(0));
    while i < managed_routes.len()
        invariant
            i <= managed_routes@.len(),
            all == managed_routes.deep_view().map_values(
                |route: ManagedSpecRouteView| managed_route(
                    route,
                    contracts.deep_view(),
                ),
            ),
            rows.deep_view() == all.take(i as int),
        decreases managed_routes@.len() - i,
    {
        let route = &managed_routes[i];
        let contract = contracts::find_contract(
            contracts,
            route.method.as_str(),
            route.normalized_path.as_str(),
        );
        let row = EnforcementManagedRoute {
            method: route.method.clone(),
            normalized_path: route.normalized_path.clone(),
            auth_required: route.auth_required,
            expected_response: expected_answer(contract),
        };
        let ghost before = rows.deep_view();
        let ghost view = row.deep_view();
        assert(view =~= all[i as int]);
        rows.push(row);
        assert(rows.deep_view() =~= before.push(view));
        i = i + 1;
        assert(rows.deep_view() =~= all.take(i as int));
    }
    assert(rows.deep_view() =~= all);
    EnforcementManagedSpecExport {
        exported_at: now,
        version: "v1".to_string(),
        routes: rows,
    }
}

/// The managed routes and the response contracts as they are.
pub fn export_managed_spec_inventory(
    managed_spec_routes: Vec<ManagedSpecRoute>,
    response_contracts: Vec<ResponseContract>,
    now: Timestamp,
) -> (r: ManagedSpecExport)
    ensures
        r.deep_view() == (ManagedSpecExportView {
            exported_at: now,
            managed_spec_routes: managed_spec_routes.deep_view(),
            response_contracts: response_contracts.deep_view(),
        }),
{
    ManagedSpecExport { exported_at: now, managed_spec_routes, response_contracts }
}

/// How much there is to export.
pub fn export_manifest(
    managed_routes: usize,
    response_contracts: usize,
    release_state_records: usize,
    policy_bundles: usize,
    now: Timestamp,
) -> (r: ExportManifest)
    ensures
        r.deep_view() == (ExportManifestView {
            exported_at: now,
            managed_routes,
            response_contracts,
            release_state_records,
            policy_bundles,
        }),
{
    ExportManifest {
        exported_at: now,
        managed_routes,
        response_contracts,
        release_state_records,
        policy_bundles,
    }
}

/// The forms in which a gateway can ask for the inventory.
#[derive(Debug, Clone, Copy, PartialEq, Eq, Structural)]
pub enum GatewayVariant {
    RoutingOnly,
    Enforcement,
    ManagedSpec,
}

/// The form that a name stands for.
pub open spec fn variant_of(name: Seq<char>) -> GatewayVariant {
    if name == "gateway-routing-only"@ {
        GatewayVariant::RoutingOnly
    } else if name == "gateway-enforcement"@ {
        GatewayVariant::Enforcement
    } else {
        GatewayVariant::ManagedSpec
    }
}

pub fn export_gateway_variant(name: &str) -> (r: GatewayVariant)
    ensures
        r == variant_of(name@),
{
    if text::same(name, "gateway-routing-only") {
        GatewayVariant::RoutingOnly
    } else if text::same(name, "gateway-enforcement") {
        GatewayVariant::Enforcement
    } else {
        GatewayVariant::ManagedSpec
    }
}

} // verus!
