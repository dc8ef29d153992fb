//! Which attacks the inspection of a request reports.

use crate::config::AppConfig;
use crate::dedupe;
use crate::detection;
use crate::detection::detectors;
use crate::detection::inspection;
use crate::detection::normalization;
use crate::detection::normalization::NormalizationLimits;
use crate::detection::schema_learning::LearnedJsonSchemaView;
use crate::detection::tokens;
use crate::detection::PayloadSignals;
use crate::headers;
use crate::headers::Headers;
use crate::identity;
use crate::inventory;
use crate::laws;
use crate::laws::sources;
use crate::net;
use crate::net::IpAddrView;
use crate::outside;
use crate::routes;
use crate::text;
use crate::types;
use crate::types::{
    AttackClass, FindingView, LearnedRouteView, LivePolicyState, ParsedBodyFieldView,
    RequestContext, Severity,
};
use crate::validation;
use vstd::prelude::*;

verus! {

/// A text decoded as far as the configuration allows.
pub open spec fn decoded(config: AppConfig, s: Seq<char>) -> Seq<char> {
    normalization::decoded_of(
        s,
        NormalizationLimits {
            max_bytes: config.discovery.max_normalized_bytes,
            max_decode_passes: config.discovery.max_decode_passes,
            max_query_params: config.discovery.max_query_params,
        },
    )
}

/// Some parts of a request as they are searched together: decoded, in a row, in lower case.
pub open spec fn searched(config: AppConfig, parts: Seq<Seq<char>>) -> Seq<char> {
    text::lower_of(text::join_of(parts.map_values(|p: Seq<char>| decoded(config, p)), " | "@))
}

/// What stands for a value under a name: nothing of it where the name is sensitive.
pub open spec fn shown(config: AppConfig, name: Seq<char>, value: Seq<char>) -> Seq<char> {
    if normalization::sensitive(name) {
        "[redacted]"@
    } else {
        decoded(config, value)
    }
}

/// The parts of the path and the query that are searched.
pub open spec fn path_parts(config: AppConfig, request: RequestContext) -> Seq<Seq<char>> {
    let path = seq![text::lower_of(decoded(config, request.path@))];
    if config.security.inspect_query_string {
        path + normalization::query_pairs_of(
            request.query.deep_view(),
            detection::limits_of(config),
        ).map_values(|p: (Seq<char>, Seq<char>)| p.0 + "="@ + p.1)
    } else {
        path
    }
}

/// The parts of the body that are searched: its fields, and the whole of it.
pub open spec fn body_parts(config: AppConfig, request: RequestContext) -> Seq<Seq<char>> {
    request.parsed_body_fields.deep_view().map_values(
        |f: ParsedBodyFieldView|
            {
                let name = text::lower_of(decoded(config, f.key));
                "body."@ + name + "="@ + shown(config, name, f.value_preview)
            },
    ) + (match request.body_preview {
        Some(body) => {
            let whole = normalization::redacted_of(
                text::bounded_of(body@, config.discovery.max_normalized_bytes as nat),
            );
            let read = normalization::redacted_of(decoded(config, body@));
            if decoded(config, body@) == body@ {
                seq!["request.body="@ + whole]
            } else {
                seq!["request.body="@ + whole, "request.body="@ + read]
            }
        },
        None => Seq::empty(),
    })
}

/// Whether an address is of this machine, of a private network or of the local link.
pub open spec fn is_inside(ip: IpAddrView) -> bool {
    match ip {
        IpAddrView::V4(o) => o[0] == 10 || o[0] == 127 || (o[0] == 192 && o[1] == 168) || (o[0]
            == 169 && o[1] == 254) || (o[0] == 172 && 16 <= o[1] && o[1] < 32),
        IpAddrView::V6(g) => g == seq![0u16, 0, 0, 0, 0, 0, 0, 1] || (0xfc00 <= g[0] && g[0]
            < 0xfe00) || (0xfe80 <= g[0] && g[0] < 0xfec0),
    }
}

/// Whether a URL leads to a file, or to a host that a server must not be made to call.
pub open spec fn leads_inside(url: Seq<char>) -> bool {
    match outside::url_parts(url) {
        None => false,
        Some(parts) => if parts.0 == "file"@ || parts.0 == "gopher"@ {
            true
        } else if parts.0 != "http"@ && parts.0 != "https"@ {
            false
        } else {
            match parts.1 {
                None => false,
                Some(host) => {
                    let name = text::lower_of(text::trim_matches_of(host, '.'));
                    ||| name == "localhost"@
                    ||| name == "metadata.google.internal"@
                    ||| name == "169.254.169.254"@
                    ||| match net::ip_of(name) {
                        Some(ip) => is_inside(ip),
                        None => false,
                    }
                },
            }
        },
    }
}

/// Whether one of some decoded parts holds a URL that leads inside.
pub open spec fn urls_lead_inside(config: AppConfig, parts: Seq<Seq<char>>) -> bool {
    exists|i: int, j: int|
        0 <= i < parts.len() && 0 <= j < detection::url_candidates_of(
            decoded(config, parts[i]),
        ).len() && leads_inside(
            #[trigger] detection::url_candidates_of(decoded(config, parts[i]))[j],
        )
}

/// Whether the findings name the attacks, and no others, that searching some parts shows at a
/// place.
pub open spec fn attacks_named(
    config: AppConfig,
    parts: Seq<Seq<char>>,
    found: Seq<FindingView>,
    place: Seq<char>,
) -> bool {
    let s = searched(config, parts);
    &&& laws::names(found, AttackClass::PathTraversal, place) == (text::has_part(s, "../"@)
        || text::has_part(s, "..\\"@) || text::has_part(s, "%2e%2e"@) || text::has_part(
        s,
        "%252e%252e"@,
    ))
    &&& laws::names(found, AttackClass::SqlInjection, place) == outside::regex_finds(
        r#"(?i)(?:\bunion\s+(?:all\s+)?select\b|\binformation_schema\b|\bbenchmark\s*\(|\bsleep\s*\(|(?:'|")\s*or\s+(?:'|")?1(?:'|")?\s*=\s*(?:'|")?1|--\s*$|/\*)"#@,
        s,
    )
    &&& laws::names(found, AttackClass::Xss, place) == outside::regex_finds(
        r"(?i)(<script|javascript:|onerror\s*=|onload\s*=|document\.cookie|alert\s*\()"@,
        s,
    )
    &&& laws::names(found, AttackClass::CommandInjection, place) == outside::regex_finds(
        r"(?i)(;\s*(cat|ls|id)\b|\|\s*(whoami|id)\b|&&\s*(whoami|id)\b|`[^`]+`|\$\([^\)]+\)|/bin/sh|cmd\.exe|powershell\.exe)"@,
        s,
    )
    &&& laws::names(found, AttackClass::Ssrf, place) == (outside::regex_finds(
        r"(?i)(https?://(?:127\.0\.0\.1|localhost|169\.254\.169\.254)|file://|gopher://)"@,
        s,
    ) || urls_lead_inside(config, parts))
    &&& laws::names(found, AttackClass::PayloadEvasion, place) == (text::count_of(s, '%') >= 8
        || text::has_part(s, "%25"@))
}

/// Whether every finding about an attack has the severity and the confidence of its class.
pub open spec fn attacks_weighed(found: Seq<FindingView>) -> bool {
    forall|i: int|
        0 <= i < found.len() ==> {
            let f = #[trigger] found[i];
            match f.attack_class {
                AttackClass::PathTraversal => f.severity == Severity::High && f.confidence
                    == 950_000,
                AttackClass::SqlInjection => f.severity == Severity::Critical && f.confidence
                    == 910_000,
                AttackClass::Xss => f.severity == Severity::High && f.confidence == 890_000,
                AttackClass::CommandInjection => f.severity == Severity::Critical && f.confidence
                    == 870_000,
                AttackClass::Ssrf => f.severity == Severity::High && f.confidence == 800_000,
                AttackClass::PayloadEvasion => f.severity == Severity::Medium && f.confidence
                    == 760_000,
                _ => true,
            }
        }
}

/// Whether a class is one of those that searching for attacks reports.
pub open spec fn is_attack(class: AttackClass) -> bool {
    match class {
        AttackClass::PathTraversal
        | AttackClass::SqlInjection
        | AttackClass::Xss
        | AttackClass::CommandInjection
        | AttackClass::Ssrf
        | AttackClass::PayloadEvasion => true,
        _ => false,
    }
}

proof fn lemma_payload(
    policy: LivePolicyState,
    path: Seq<char>,
    location: Seq<char>,
    haystack: Seq<char>,
    signals: PayloadSignals,
)
    ensures
        ({
            let found = detection::payload_findings_of(policy, path, location, haystack, signals);
            let s = text::lower_of(haystack);
            &&& laws::sound(found)
            &&& attacks_weighed(found)
            &&& forall|class: AttackClass, place: Seq<char>|
                place != location || !is_attack(class) ==> !#[trigger] laws::names(
                    found,
                    class,
                    place,
                )
            &&& laws::names(found, AttackClass::PathTraversal, location) == (text::has_part(
                s,
                "../"@,
            ) || text::has_part(s, "..\\"@) || text::has_part(s, "%2e%2e"@) || text::has_part(
                s,
                "%252e%252e"@,
            ))
            &&& laws::names(found, AttackClass::SqlInjection, location) == signals.sqli
            &&& laws::names(found, AttackClass::Xss, location) == signals.xss
            &&& laws::names(found, AttackClass::CommandInjection, location) == signals.cmdi
            &&& laws::names(found, AttackClass::Ssrf, location) == signals.ssrf
            &&& laws::names(found, AttackClass::PayloadEvasion, location) == (text::count_of(s, '%')
                >= 8 || text::has_part(s, "%25"@))
        }),
{
    broadcast use laws::group_findings;

    sources::lemma_payload_rules();
}

proof fn lemma_urls(config: AppConfig, parts: Seq<Seq<char>>)
    ensures
        detection::any_suspicious_url(detection::variants_of(config, parts)) == urls_lead_inside(
            config,
            parts,
        ),
{
    let values = detection::variants_of(config, parts);
    assert forall|i: int| 0 <= i < parts.len() implies #[trigger] values[i] == decoded(
        config,
        parts[i],
    ) by {}
    assert forall|url: Seq<char>| detection::suspicious_url(url) == leads_inside(url) by {}
    if detection::any_suspicious_url(values) {
        let i = choose|i: int|
            0 <= i < values.len() && detection::holds_suspicious_url(#[trigger] values[i]);
        let all = detection::url_candidates_of(values[i]);
        let j = choose|j: int| 0 <= j < all.len() && detection::suspicious_url(#[trigger] all[j]);
        assert(leads_inside(detection::url_candidates_of(decoded(config, parts[i]))[j]));
    }
    if urls_lead_inside(config, parts) {
        let (i, j) = choose|i: int, j: int|
            0 <= i < parts.len() && 0 <= j < detection::url_candidates_of(
                decoded(config, parts[i]),
            ).len() && leads_inside(
                #[trigger] detection::url_candidates_of(decoded(config, parts[i]))[j],
            );
        assert(detection::suspicious_url(detection::url_candidates_of(values[i])[j]));
        assert(detection::holds_suspicious_url(values[i]));
    }
}

proof fn lemma_candidates(
    config: AppConfig,
    policy: LivePolicyState,
    path: Seq<char>,
    location: Seq<char>,
    parts: Seq<Seq<char>>,
)
    ensures
        ({
            let found = detection::candidate_findings(config, policy, path, location, parts);
            &&& laws::sound(found)
            &&& attacks_weighed(found)
            &&& forall|class: AttackClass, place: Seq<char>|
                place != location || !is_attack(class) ==> !#[trigger] laws::names(
                    found,
                    class,
                    place,
                )
            &&& parts.len() > 0 ==> attacks_named(config, parts, found, location)
            &&& parts.len() == 0 ==> found.len() == 0
        }),
{
    if parts.len() > 0 {
        let values = detection::variants_of(config, parts);
        assert(values =~= parts.map_values(|p: Seq<char>| decoded(config, p)));
        let haystack = text::join_of(values, " | "@);
        lemma_urls(config, parts);
        lemma_payload(
            policy,
            path,
            location,
            haystack,
            detection::signals_of(values, haystack),
        );
    }
}

proof fn lemma_body_candidates(
    before: Seq<(Seq<char>, Seq<char>)>,
    values: Seq<(Seq<char>, Seq<char>)>,
)
    requires
        forall|i: int| 0 <= i < before.len() ==> !detectors::is_body_place((#[trigger] before[i]).0),
        forall|i: int| 0 <= i < values.len() ==> detectors::is_body_place((#[trigger] values[i]).0),
    ensures
        detectors::body_candidates(before + values) == values.map_values(
            |p: (Seq<char>, Seq<char>)| detectors::shown_pair(p),
        ),
    decreases before.len() + values.len(),
{
    let all = before + values;
    let show = |p: (Seq<char>, Seq<char>)| detectors::shown_pair(p);
    if values.len() > 0 {
        lemma_body_candidates(before, values.drop_last());
        assert(all.drop_last() =~= before + values.drop_last());
        assert(all.last() == values[values.len() - 1]);
        assert(values.map_values(show) =~= values.drop_last().map_values(show).push(
            show(values.last()),
        ));
    } else if before.len() > 0 {
        lemma_body_candidates(before.drop_last(), values);
        assert(all.drop_last() =~= before.drop_last() + values);
        assert(all.last() == before[before.len() - 1]);
        assert(values.map_values(show) =~= Seq::empty());
    } else {
        assert(values.map_values(show) =~= Seq::empty());
    }
}

proof fn lemma_parts(config: AppConfig, request: RequestContext, h: Headers)
    ensures
        ({
            let n = normalization::normalized_of(request, h, detection::limits_of(config));
            &&& detectors::path_candidates(config, n) == path_parts(config, request)
            &&& detectors::body_candidates(n.inspection_values) == body_parts(config, request)
        }),
{
    reveal_strlit("body.");
    reveal_strlit("query.");
    reveal_strlit("request.path");
    reveal_strlit("request.body");
    reveal_strlit("request.body=");
    reveal_strlit("=");
    let limits = detection::limits_of(config);
    let n = normalization::normalized_of(request, h, limits);
    assert(detectors::path_candidates(config, n) =~= path_parts(config, request));
    let pairs = n.query_pairs;
    let fields = request.parsed_body_fields.deep_view();
    let variants = n.body_variants;
    let before = seq![("request.path"@, n.path)] + Seq::new(
        pairs.len(),
        |i: int| ("query."@ + pairs[i].0, pairs[i].1),
    );
    let values = Seq::new(fields.len(), |i: int| normalization::normal_field(fields[i], limits))
        + Seq::new(variants.len(), |i: int| ("request.body"@, variants[i]));
    assert(n.inspection_values =~= before + values);
    assert forall|i: int| 0 <= i < before.len() implies !detectors::is_body_place(
        (#[trigger] before[i]).0,
    ) by {
        let place = before[i].0;
        assert(i > 0 ==> place == "query."@ + pairs[i - 1].0);
        assert(i > 0 ==> place[0] == 'q');
        assert(place[0] == 'q' || place == "request.path"@);
        if text::has_prefix(place, "body."@) {
            assert(place.take(5)[0] == place[0]);
        }
        assert("request.path"@[8] == 'p');
        assert("request.body"@[8] == 'b');
        assert("request.body"@[0] == 'r');
    }
    assert forall|i: int| 0 <= i < values.len() implies detectors::is_body_place(
        (#[trigger] values[i]).0,
    ) by {
        if i < fields.len() {
            let place = values[i].0;
            assert(place.take(5) =~= "body."@);
        }
    }
    lemma_body_candidates(before, values);
    assert("request.body="@ =~= "request.body"@ + "="@);
    assert(values.map_values(|p: (Seq<char>, Seq<char>)| detectors::shown_pair(p)) =~= body_parts(
        config,
        request,
    ));
}

/// What the inspection of a request finds, from everything that it looks at.
pub open spec fn found_in(
    config: AppConfig,
    policy: LivePolicyState,
    known: Seq<LearnedRouteView>,
    hits: u64,
    schemas: Seq<(Seq<char>, LearnedJsonSchemaView)>,
    request: RequestContext,
    h: Headers,
) -> Seq<FindingView> {
    dedupe::first_by_key(
        inspection::request_findings(config, policy, known, hits, schemas, request, h),
        inspection::by_finding_key(),
    )
}

/// The lists of findings that the checks of a request make.
pub struct Checks {
    pub declared: Seq<FindingView>,
    pub inventory: Seq<FindingView>,
    pub credentials: Seq<FindingView>,
    pub method: Seq<FindingView>,
    pub path: Seq<FindingView>,
    pub headers: Seq<FindingView>,
    pub body: Seq<FindingView>,
    pub tokens: Seq<FindingView>,
    pub objects: Seq<FindingView>,
    pub resources: Seq<FindingView>,
    pub learned: Seq<FindingView>,
}

pub open spec fn checks_of(
    config: AppConfig,
    policy: LivePolicyState,
    known: Seq<LearnedRouteView>,
    hits: u64,
    schemas: Seq<(Seq<char>, LearnedJsonSchemaView)>,
    request: RequestContext,
    h: Headers,
) -> Checks {
    let path = request.path@;
    let route = routes::route_of(path);
    let n = normalization::normalized_of(request, h, detection::limits_of(config));
    Checks {
        declared: sources::only(
            validation::validation_of(
                config,
                policy,
                request,
                route,
                h,
                validation::body_json(request),
            ).finding,
        ),
        inventory: detectors::inventory_findings(
            config,
            policy,
            path,
            route,
            hits,
            inventory::deprecated_in(known, request.method@, route),
        ),
        credentials: detectors::auth_findings(config, policy, path, request.auth_status),
        method: detectors::method_findings(config, policy, path, request.method@),
        path: detection::candidate_findings(
            config,
            policy,
            path,
            "request.path_or_query"@,
            path_parts(config, request),
        ),
        headers: if config.security.inspect_headers {
            detectors::header_findings(
                policy,
                path,
                h,
                text::upper_of(request.method@),
                request.body_preview.deep_view(),
            )
        } else {
            Seq::empty()
        },
        body: if config.security.inspect_body {
            detection::candidate_findings(
                config,
                policy,
                path,
                "request.body"@,
                body_parts(config, request),
            )
        } else {
            Seq::empty()
        },
        tokens: tokens::token_findings(
            config,
            policy,
            path,
            inspection::scopes_required(config, request),
            h,
        ),
        objects: detectors::object_findings(
            policy,
            path,
            identity::object_ids_of(request),
            inspection::acting_tenant(h),
            detectors::tenant_hint_of(request),
        ),
        resources: detectors::resource_findings(
            config,
            policy,
            path,
            n,
            headers::field_text(h, "content-length"@),
        ),
        learned: inspection::learned_findings(config, policy, schemas, request, h),
    }
}

/// Whether each list holds findings of its own classes only, all of them sound.
spec fn checks_sound(c: Checks) -> bool {
    &&& laws::sound(c.declared) && sources::within(
        c.declared,
        AttackClass::SchemaViolation,
        AttackClass::SchemaViolation,
    )
    &&& laws::sound(c.inventory) && sources::within(
        c.inventory,
        AttackClass::ApiInventory,
        AttackClass::ApiInventory,
    )
    &&& laws::sound(c.credentials) && sources::within(
        c.credentials,
        AttackClass::BrokenAuthentication,
        AttackClass::BrokenAuthentication,
    )
    &&& laws::sound(c.method) && sources::within(
        c.method,
        AttackClass::MethodAbuse,
        AttackClass::MethodAbuse,
    )
    &&& laws::sound(c.path) && attacks_weighed(c.path) && attacks_only(c.path)
    &&& laws::sound(c.headers) && sources::within(
        c.headers,
        AttackClass::HeaderInjection,
        AttackClass::RequestSmuggling,
    )
    &&& laws::sound(c.body) && attacks_weighed(c.body) && attacks_only(c.body)
    &&& laws::sound(c.tokens) && sources::within(
        c.tokens,
        AttackClass::JwtAbuse,
        AttackClass::JwtAbuse,
    )
    &&& laws::sound(c.objects) && sources::within(
        c.objects,
        AttackClass::ObjectEnumeration,
        AttackClass::TenantBoundaryViolation,
    )
    &&& laws::sound(c.resources) && sources::within(
        c.resources,
        AttackClass::ResourceAbuse,
        AttackClass::ResourceAbuse,
    )
    &&& laws::sound(c.learned) && sources::within(
        c.learned,
        AttackClass::SchemaViolation,
        AttackClass::SchemaViolation,
    )
}

spec fn attacks_only(found: Seq<FindingView>) -> bool {
    forall|i: int| 0 <= i < found.len() ==> is_attack((#[trigger] found[i]).attack_class)
}

/// The findings of the checks one after another.
pub open spec fn in_order(c: Checks) -> Seq<FindingView> {
    (c.declared + c.inventory) + (c.credentials + c.method + c.path + c.headers + c.body) + (
    c.tokens + c.objects + c.resources) + c.learned
}

/// The findings of the checks that report a class.
pub open spec fn by_class(c: Checks, class: AttackClass) -> Seq<FindingView> {
    match class {
        AttackClass::SchemaViolation => c.declared + c.learned,
        AttackClass::ApiInventory => c.inventory,
        AttackClass::BrokenAuthentication => c.credentials,
        AttackClass::MethodAbuse => c.method,
        AttackClass::HeaderInjection | AttackClass::RequestSmuggling => c.headers,
        AttackClass::JwtAbuse => c.tokens,
        AttackClass::ObjectEnumeration | AttackClass::TenantBoundaryViolation => c.objects,
        AttackClass::ResourceAbuse => c.resources,
        _ => c.path + c.body,
    }
}

proof fn lemma_names_foreign(
    found: Seq<FindingView>,
    a: AttackClass,
    b: AttackClass,
)
    requires
        laws::sound(found),
        sources::within(found, a, b),
    ensures
        forall|class: AttackClass, location: Seq<char>|
            class != a && class != b ==> !#[trigger] laws::names(found, class, location),
        forall|rule_id: Seq<char>, location: Seq<char>|
            laws::class_of_rule(rule_id) != a && laws::class_of_rule(rule_id) != b
                ==> !#[trigger] laws::cites(found, rule_id, location),
{
}

proof fn lemma_attacks_foreign(found: Seq<FindingView>)
    requires
        laws::sound(found),
        attacks_only(found),
    ensures
        forall|class: AttackClass, location: Seq<char>|
            !is_attack(class) ==> !#[trigger] laws::names(found, class, location),
        forall|rule_id: Seq<char>, location: Seq<char>|
            !is_attack(laws::class_of_rule(rule_id)) ==> !#[trigger] laws::cites(
                found,
                rule_id,
                location,
            ),
{
}

proof fn lemma_assembled(c: Checks)
    requires
        checks_sound(c),
    ensures
        laws::sound(in_order(c)),
        attacks_weighed(in_order(c)),
        forall|class: AttackClass, location: Seq<char>| #[trigger]
            laws::names(in_order(c), class, location) == laws::names(
                by_class(c, class),
                class,
                location,
            ),
        forall|rule_id: Seq<char>, location: Seq<char>| #[trigger]
            laws::cites(in_order(c), rule_id, location) == laws::cites(
                by_class(c, laws::class_of_rule(rule_id)),
                rule_id,
                location,
            ),
{
    lemma_names_foreign(
        c.declared,
        AttackClass::SchemaViolation,
        AttackClass::SchemaViolation,
    );
    lemma_names_foreign(c.inventory, AttackClass::ApiInventory, AttackClass::ApiInventory);
    lemma_names_foreign(
        c.credentials,
        AttackClass::BrokenAuthentication,
        AttackClass::BrokenAuthentication,
    );
    lemma_names_foreign(c.method, AttackClass::MethodAbuse, AttackClass::MethodAbuse);
    lemma_attacks_foreign(c.path);
    lemma_names_foreign(c.headers, AttackClass::HeaderInjection, AttackClass::RequestSmuggling);
    lemma_attacks_foreign(c.body);
    lemma_names_foreign(c.tokens, AttackClass::JwtAbuse, AttackClass::JwtAbuse);
    lemma_names_foreign(
        c.objects,
        AttackClass::ObjectEnumeration,
        AttackClass::TenantBoundaryViolation,
    );
    lemma_names_foreign(c.resources, AttackClass::ResourceAbuse, AttackClass::ResourceAbuse);
    lemma_names_foreign(c.learned, AttackClass::SchemaViolation, AttackClass::SchemaViolation);
    assert(laws::sound(in_order(c))) by {
        broadcast use laws::group_findings;

    }
    assert forall|class: AttackClass, location: Seq<char>| #[trigger]
        laws::names(in_order(c), class, location) == laws::names(
            by_class(c, class),
            class,
            location,
        ) by {
        broadcast use laws::group_findings;

    }
    assert forall|rule_id: Seq<char>, location: Seq<char>| #[trigger]
        laws::cites(in_order(c), rule_id, location) == laws::cites(
            by_class(c, laws::class_of_rule(rule_id)),
            rule_id,
            location,
        ) by {
        broadcast use laws::group_findings;

    }
    lemma_weighed_add(c.declared, c.inventory);
    lemma_weighed_add(c.credentials, c.method);
    lemma_weighed_add(c.credentials + c.method, c.path);
    lemma_weighed_add(c.credentials + c.method + c.path, c.headers);
    lemma_weighed_add(c.credentials + c.method + c.path + c.headers, c.body);
    lemma_weighed_add(c.tokens, c.objects);
    lemma_weighed_add(c.tokens + c.objects, c.resources);
    let a = c.declared + c.inventory;
    let b = c.credentials + c.method + c.path + c.headers + c.body;
    let d = c.tokens + c.objects + c.resources;
    lemma_weighed_add(a, b);
    lemma_weighed_add(a + b, d);
    lemma_weighed_add(a + b + d, c.learned);
}

proof fn lemma_weighed_add(a: Seq<FindingView>, b: Seq<FindingView>)
    requires
        attacks_weighed(a),
        attacks_weighed(b),
    ensures
        attacks_weighed(a + b),
{
}

/// What is reported of a class, or by a rule, is what the checks for it found, at every place.
pub proof fn lemma_reported_by_class(
    config: AppConfig,
    policy: LivePolicyState,
    known: Seq<LearnedRouteView>,
    hits: u64,
    schemas: Seq<(Seq<char>, LearnedJsonSchemaView)>,
    request: RequestContext,
    h: Headers,
)
    ensures
        ({
            let c = checks_of(config, policy, known, hits, schemas, request, h);
            let reported = found_in(config, policy, known, hits, schemas, request, h);
            &&& laws::sound(reported)
            &&& attacks_weighed(reported)
            &&& forall|class: AttackClass, location: Seq<char>| #[trigger]
                laws::names(reported, class, location) == laws::names(
                    by_class(c, class),
                    class,
                    location,
                )
            &&& forall|rule_id: Seq<char>, location: Seq<char>| #[trigger]
                laws::cites(reported, rule_id, location) == laws::cites(
                    by_class(c, laws::class_of_rule(rule_id)),
                    rule_id,
                    location,
                )
        }),
{
    lemma_in_order(config, policy, known, hits, schemas, request, h);
    lemma_checks_sound(config, policy, known, hits, schemas, request, h);
    lemma_combined(
        checks_of(config, policy, known, hits, schemas, request, h),
        inspection::request_findings(config, policy, known, hits, schemas, request, h),
    );
}

proof fn lemma_combined(c: Checks, found: Seq<FindingView>)
    requires
        checks_sound(c),
        found == in_order(c),
    ensures
        ({
            let reported = dedupe::first_by_key(found, inspection::by_finding_key());
            &&& laws::sound(reported)
            &&& attacks_weighed(reported)
            &&& forall|class: AttackClass, location: Seq<char>| #[trigger]
                laws::names(reported, class, location) == laws::names(
                    by_class(c, class),
                    class,
                    location,
                )
            &&& forall|rule_id: Seq<char>, location: Seq<char>| #[trigger]
                laws::cites(reported, rule_id, location) == laws::cites(
                    by_class(c, laws::class_of_rule(rule_id)),
                    rule_id,
                    location,
                )
        }),
{
    lemma_assembled(c);
    laws::lemma_reported(found);
    lemma_weighed_among(
        found,
        dedupe::first_by_key(found, inspection::by_finding_key()),
    );
}

proof fn lemma_weighed_among(found: Seq<FindingView>, some: Seq<FindingView>)
    requires
        attacks_weighed(found),
        forall|i: int| 0 <= i < some.len() ==> found.contains(#[trigger] some[i]),
    ensures
        attacks_weighed(some),
{
    assert forall|i: int| 0 <= i < some.len() implies exists|j: int|
        0 <= j < found.len() && #[trigger] found[j] == #[trigger] some[i] by {
        assert(found.contains(some[i]));
    }
}

pub(crate) proof fn lemma_in_order(
    config: AppConfig,
    policy: LivePolicyState,
    known: Seq<LearnedRouteView>,
    hits: u64,
    schemas: Seq<(Seq<char>, LearnedJsonSchemaView)>,
    request: RequestContext,
    h: Headers,
)
    ensures
        inspection::request_findings(config, policy, known, hits, schemas, request, h) == in_order(
            checks_of(config, policy, known, hits, schemas, request, h),
        ),
{
    lemma_parts(config, request, h);
}

proof fn lemma_checks_sound(
    config: AppConfig,
    policy: LivePolicyState,
    known: Seq<LearnedRouteView>,
    hits: u64,
    schemas: Seq<(Seq<char>, LearnedJsonSchemaView)>,
    request: RequestContext,
    h: Headers,
)
    ensures
        checks_sound(checks_of(config, policy, known, hits, schemas, request, h)),
{
    let path = request.path@;
    let route = routes::route_of(path);
    let n = normalization::normalized_of(request, h, detection::limits_of(config));
    let c = checks_of(config, policy, known, hits, schemas, request, h);
    sources::lemma_declared(config, policy, request, route, h, validation::body_json(request));
    sources::lemma_inventory(
        config,
        policy,
        path,
        route,
        hits,
        inventory::deprecated_in(known, request.method@, route),
    );
    sources::lemma_credentials(config, policy, path, request.auth_status, request.method@);
    lemma_candidates_only(
        config,
        policy,
        path,
        "request.path_or_query"@,
        path_parts(config, request),
    );
    lemma_candidates_only(config, policy, path, "request.body"@, body_parts(config, request));
    sources::lemma_header(
        policy,
        path,
        h,
        text::upper_of(request.method@),
        request.body_preview.deep_view(),
    );
    sources::lemma_tokens(config, policy, path, inspection::scopes_required(config, request), h);
    sources::lemma_objects(
        policy,
        path,
        identity::object_ids_of(request),
        inspection::acting_tenant(h),
        detectors::tenant_hint_of(request),
    );
    sources::lemma_resources(
        config,
        policy,
        path,
        n,
        headers::field_text(h, "content-length"@),
    );
    sources::lemma_learned(
        schemas,
        inspection::schema_key(request),
        request.body_preview.deep_view(),
        n.content_type,
        inspection::parsed_body(request),
        config.discovery,
        types::rule_mode_of(policy, path, "UZ-API-SCHEMA-000"@),
    );
}

proof fn lemma_candidates_only(
    config: AppConfig,
    policy: LivePolicyState,
    path: Seq<char>,
    location: Seq<char>,
    parts: Seq<Seq<char>>,
)
    ensures
        ({
            let found = detection::candidate_findings(config, policy, path, location, parts);
            laws::sound(found) && attacks_weighed(found) && attacks_only(found)
        }),
{
    lemma_candidates(config, policy, path, location, parts);
    lemma_attack_classes(
        detection::candidate_findings(config, policy, path, location, parts),
    );
}

proof fn lemma_attack_classes(found: Seq<FindingView>)
    requires
        laws::sound(found),
        forall|class: AttackClass, place: Seq<char>|
            !is_attack(class) ==> !#[trigger] laws::names(found, class, place),
    ensures
        attacks_only(found),
{
    assert forall|i: int| 0 <= i < found.len() implies is_attack(
        (#[trigger] found[i]).attack_class,
    ) by {
        let f = found[i];
        assert(laws::is_sound(f));
        assert(laws::is_at(found[i], f.attack_class, f.evidence[0].location));
        assert(laws::names(found, f.attack_class, f.evidence[0].location));
    }
}

/// An attack in the path or the query, and an attack in the body, is reported at its place with
/// the severity and the confidence of its class; where nothing shows one, none is reported. What
/// is searched is decoded first.
pub proof fn law_attacks_reported(
    config: AppConfig,
    policy: LivePolicyState,
    known: Seq<LearnedRouteView>,
    hits: u64,
    schemas: Seq<(Seq<char>, LearnedJsonSchemaView)>,
    request: RequestContext,
    h: Headers,
)
    ensures
        ({
            let reported = found_in(config, policy, known, hits, schemas, request, h);
            &&& attacks_weighed(reported)
            &&& attacks_named(
                config,
                path_parts(config, request),
                reported,
                "request.path_or_query"@,
            )
            &&& if config.security.inspect_body && body_parts(config, request).len() > 0 {
                attacks_named(config, body_parts(config, request), reported, "request.body"@)
            } else {
                forall|class: AttackClass|
                    is_attack(class) ==> !#[trigger] laws::names(
                        reported,
                        class,
                        "request.body"@,
                    )
            }
        }),
{
    broadcast use laws::group_findings;

    reveal_strlit("request.path_or_query");
    reveal_strlit("request.body");
    assert("request.path_or_query"@.len() != "request.body"@.len());
    lemma_reported_by_class(config, policy, known, hits, schemas, request, h);
    lemma_candidates(
        config,
        policy,
        request.path@,
        "request.path_or_query"@,
        path_parts(config, request),
    );
    lemma_candidates(config, policy, request.path@, "request.body"@, body_parts(config, request));
}

} // verus!
