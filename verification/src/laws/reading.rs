//! How a request is read before it is inspected.

use crate::config::{AppConfig, RoutePolicyOverride, RuleMode};
use crate::detection;
use crate::detection::normalization;
use crate::detection::normalization::NormalizationLimits;
use crate::headers;
use crate::headers::Headers;
use crate::identity;
use crate::json;
use crate::json::{JsonNodeView, JsonView};
use crate::net;
use crate::outside;
use crate::routes;
use crate::table;
use crate::text;
use crate::types;
use crate::types::{
    LivePolicyState, ParsedBodyFieldView, RequestContext, Timestamp,
};
use vstd::prelude::*;
use vstd::utf8;

verus! {

/// A text decoded once, where it can be, and held to a number of bytes.
pub open spec fn once(s: Seq<char>, max_bytes: nat) -> Seq<char> {
    match outside::percent_decoded(s) {
        Some(d) => text::bounded_of(d, max_bytes),
        None => s,
    }
}

proof fn lemma_one_pass_more(s: Seq<char>, n: nat, max_bytes: nat)
    ensures
        normalization::decoded_form(s, n + 1, max_bytes) == once(
            normalization::decoded_form(s, n, max_bytes),
            max_bytes,
        ),
    decreases n,
{
    reveal_with_fuel(normalization::decoded_form, 2);
    if n > 0 {
        match normalization::next_form(s, outside::percent_decoded(s), max_bytes) {
            Some(next) => {
                lemma_one_pass_more(next, (n - 1) as nat, max_bytes);
            },
            None => {},
        }
    }
}

/// A text is decoded as often as the limit says, and four times at the most, each time what the time
/// before gave; it never exceeds the number of bytes.
pub proof fn law_decoded_passes(s: Seq<char>, max_bytes: usize, passes: usize, params: usize)
    ensures
        ({
            let limits = |n: usize|
                NormalizationLimits {
                    max_bytes,
                    max_decode_passes: n,
                    max_query_params: params,
                };
            &&& normalization::decoded_of(s, limits(0)) == text::bounded_of(s, max_bytes as nat)
            &&& passes < 4 ==> normalization::decoded_of(s, limits((passes + 1) as usize)) == once(
                normalization::decoded_of(s, limits(passes)),
                max_bytes as nat,
            )
            &&& passes >= 4 ==> normalization::decoded_of(s, limits(passes))
                == normalization::decoded_of(s, limits(4))
        }),
{
    if passes < 4 {
        lemma_one_pass_more(
            text::bounded_of(s, max_bytes as nat),
            passes as nat,
            max_bytes as nat,
        );
    }
}

/// The name and the value of a part of a query: what stands before and behind its first sign of
/// equality.
pub open spec fn name_of(part: Seq<char>) -> Seq<char> {
    text::split_once_of(part, '=').0
}

pub open spec fn value_of(part: Seq<char>) -> Seq<char> {
    match text::split_once_of(part, '=').1 {
        Some(v) => v,
        None => Seq::empty(),
    }
}

/// A parameter as it is inspected.
pub open spec fn read_parameter(part: Seq<char>, limits: NormalizationLimits) -> (
    Seq<char>,
    Seq<char>,
) {
    let name = text::lower_of(normalization::decoded_of(name_of(part), limits));
    (
        name,
        if normalization::sensitive(name) {
            "[redacted]"@
        } else {
            normalization::decoded_of(value_of(part), limits)
        },
    )
}

proof fn lemma_parameters(parts: Seq<Seq<char>>, limits: NormalizationLimits)
    ensures
        normalization::normal_parameters(parts, limits) == parts.map_values(
            |p: Seq<char>| read_parameter(p, limits),
        ).filter(|p: (Seq<char>, Seq<char>)| p.0.len() > 0),
    decreases parts.len(),
{
    reveal(Seq::filter);
    let read = |p: Seq<char>| read_parameter(p, limits);
    let keep = |p: (Seq<char>, Seq<char>)| p.0.len() > 0;
    let all = parts.map_values(read);
    if parts.len() > 0 {
        lemma_parameters(parts.drop_last(), limits);
        assert(all.drop_last() =~= parts.drop_last().map_values(read));
        assert(all.last() == read(parts.last()));
    } else {
        assert(all.filter(keep) =~= Seq::empty());
    }
}

/// The parameters of a query that are inspected are its first parts, as many as the limit allows,
/// each with its name in lower case and decoded and its value decoded or, where the name is
/// sensitive, replaced; those without a name are left out.
pub proof fn law_query_read(raw: Option<Seq<char>>, limits: NormalizationLimits)
    ensures
        raw is None ==> normalization::query_pairs_of(raw, limits).len() == 0,
        raw is Some ==> ({
            let parts = text::split_of(raw->0, '&');
            let n = if parts.len() < limits.max_query_params {
                parts.len() as int
            } else {
                limits.max_query_params as int
            };
            normalization::query_pairs_of(raw, limits) == parts.take(n).map_values(
                |p: Seq<char>| read_parameter(p, limits),
            ).filter(|p: (Seq<char>, Seq<char>)| p.0.len() > 0)
        }),
{
    if raw is Some {
        let parts = text::split_of(raw->0, '&');
        assert(parts.take(parts.len() as int) =~= parts);
        lemma_parameters(normalization::allowed_parts(raw->0, limits), limits);
    }
}

proof fn lemma_filled_count(parts: Seq<Seq<char>>)
    ensures
        normalization::filled_count(parts) == parts.filter(|p: Seq<char>| p.len() > 0).len(),
    decreases parts.len(),
{
    reveal(Seq::filter);
    if parts.len() > 0 {
        lemma_filled_count(parts.drop_last());
    }
}

/// The number of parameters that is reported is that of the parts that are not empty, held to one
/// more than the limit.
pub proof fn law_parameters_counted(raw: Seq<char>, limit: usize)
    ensures
        ({
            let n = text::split_of(raw, '&').filter(|p: Seq<char>| p.len() > 0).len();
            let counted = normalization::parameter_count_of(Some(raw), limit);
            &&& limit < usize::MAX ==> (counted > limit) == (n > limit)
            &&& n <= limit ==> counted == n
            &&& counted <= n
        }),
        normalization::parameter_count_of(None, limit) == 0,
{
    lemma_filled_count(text::split_of(raw, '&'));
}

/// What is inspected of a request.
pub proof fn law_request_read(request: RequestContext, h: Headers, limits: NormalizationLimits)
    ensures
        ({
            let n = normalization::normalized_of(request, h, limits);
            let kind = headers::field_text(h, "content-type"@);
            &&& n.method == text::upper_of(request.method@)
            &&& n.path == text::lower_of(normalization::decoded_of(request.path@, limits))
            &&& n.query_pairs == normalization::query_pairs_of(request.query.deep_view(), limits)
            &&& kind is None ==> n.content_type is None
            &&& kind is Some ==> ({
                let m = text::lower_of(text::trim_of(text::split_of(kind->0, ';')[0]));
                n.content_type == if m.len() == 0 {
                    None
                } else {
                    Some(m)
                }
            })
        }),
{
}

/// The source of a request is the first address that a trusted header names, written canonically;
/// where there is none it is the peer, and the local host where the peer is not known.
pub proof fn law_source(config: AppConfig, h: Headers, peer: Option<Seq<char>>)
    ensures
        ({
            let source = identity::source_of(config, h, peer);
            let named = headers::field_text(h, "x-forwarded-for"@);
            let first = text::trim_of(text::split_of(named->0, ',')[0]);
            let told = config.server.trust_x_forwarded_for && named is Some && net::ip_of(
                first,
            ) is Some;
            &&& told ==> source == net::ip_text(net::ip_of(first)->0)
            &&& !told && peer is Some ==> source == peer->0
            &&& !told && peer is None ==> source == "127.0.0.1"@
        }),
{
}

/// What is known of a request as it comes in.
pub proof fn law_context(
    config: AppConfig,
    h: Headers,
    method: Seq<char>,
    path: Seq<char>,
    query: Option<Seq<char>>,
    preview: Seq<char>,
    fields: Seq<ParsedBodyFieldView>,
    peer: Option<Seq<char>>,
    fresh: Seq<char>,
    now: Timestamp,
)
    ensures
        ({
            let c = identity::context_of(
                config,
                h,
                method,
                path,
                query,
                preview,
                fields,
                peer,
                fresh,
                now,
            );
            let named = headers::field_text(h, config.security.request_id_header@);
            &&& named is Some ==> c.request_id == named->0
            &&& named is None ==> c.request_id == fresh
            &&& c.timestamp == now
            &&& c.source_ip == identity::source_of(config, h, peer)
            &&& c.method == method && c.path == path && c.query == query
            &&& preview.len() == 0 ==> c.body_preview is None
            &&& preview.len() > 0 ==> c.body_preview == Some(preview)
            &&& c.parsed_body_fields == fields
            &&& c.auth_status == identity::auth_status_of(config, path, h)
        }),
{
}

/// The fields of a body are the members of the object that it is, each with the start of its value;
/// a body that is no object has none.
pub proof fn law_body_fields(body: Seq<char>)
    ensures
        ({
            let parsed = outside::json_parsed(utf8::encode_utf8(body));
            let fields = identity::body_fields_of(body);
            if parsed is Some && parsed->0.value is Object {
                let members = parsed->0.value->Object_0;
                fields.len() == members.len() && forall|i: int|
                    0 <= i < members.len() ==> (#[trigger] fields[i]).key == members[i].0
                        && fields[i].value_preview == text::truncate_of(
                        members[i].1.rendered,
                        120,
                    )
            } else {
                fields.len() == 0
            }
        }),
{
}

/// No more of a body is inspected than the limit says, and that from its start.
pub proof fn law_inspected_part(bytes: Seq<u8>, limit: usize)
    ensures
        ({
            let part = identity::inspected_part(bytes, limit);
            &&& part.len() <= limit
            &&& part.len() == limit || part.len() == bytes.len()
            &&& forall|i: int| 0 <= i < part.len() ==> #[trigger] part[i] == bytes[i]
        }),
{
}

/// The claims of a request are the object that the second part of its bearer token holds.
pub proof fn law_claims(h: Headers)
    ensures
        ({
            let value = headers::field_text(h, "authorization"@);
            let trimmed = text::trim_of(value->0);
            let bearer = value is Some && text::has_prefix(trimmed, "Bearer "@);
            let parts = text::split_of(text::trim_of(trimmed.skip(7)), '.');
            let bytes = outside::base64url_decoded(parts[1]);
            let claims = identity::claims_of(h);
            let held = bearer && parts.len() >= 2 && bytes is Some && outside::json_parsed(
                bytes->0,
            ) is Some && outside::json_parsed(bytes->0)->0.value is Object;
            &&& claims is Some == held
            &&& held ==> claims == outside::json_parsed(bytes->0)
        }),
{
    reveal_strlit("Bearer ");
}

/// Which tenant a request is made for: the one of its claims, else the one of its header.
pub proof fn law_acting_tenant(h: Headers)
    ensures
        ({
            let claims = identity::claims_of(h);
            let claimed = json::scalar_of(json::member_of(claims->0, "tenant_id"@));
            let acting = detection::inspection::acting_tenant(h);
            &&& claims is Some && claimed is Some ==> acting == claimed
            &&& claims is None || claimed is None ==> acting == headers::field_text(
                h,
                "x-tenant-id"@,
            )
        }),
{
}

/// A number or a text as a claim; everything else is none.
pub proof fn law_scalar(n: JsonNodeView)
    ensures
        json::scalar_of(Some(n)) == (match n.value {
            JsonView::Text(s) => Some(s),
            JsonView::Number => Some(n.rendered),
            _ => None,
        }),
        json::scalar_of(None) is None,
{
}

/// A value is hashed to the first twenty-four hexadecimal digits of its digest.
pub proof fn law_hashed(value: Seq<char>)
    ensures
        identity::hashed(value) == outside::hex_of(
            outside::sha256_of(utf8::encode_utf8(value)),
        ).take(24),
{
}

/// Whether an override is the first that fits a path and sets the mode of a rule.
pub open spec fn sets_mode(o: RoutePolicyOverride, path: Seq<char>, rule_id: Seq<char>) -> bool {
    text::has_prefix(path, o.path_prefix@) && table::at(o.rule_modes.deep_view(), rule_id) is Some
}

proof fn lemma_override_mode(
    all: Seq<RoutePolicyOverride>,
    path: Seq<char>,
    rule_id: Seq<char>,
    i: int,
)
    requires
        0 <= i <= all.len(),
        i < all.len() ==> sets_mode(all[i], path, rule_id),
        forall|j: int| 0 <= j < i ==> !sets_mode(#[trigger] all[j], path, rule_id),
    ensures
        types::override_mode(all, path, rule_id) == (if i < all.len() {
            table::at(all[i].rule_modes.deep_view(), rule_id)
        } else {
            None
        }),
    decreases all.len(),
{
    if i > 0 {
        let rest = all.drop_first();
        assert(!sets_mode(all[0], path, rule_id));
        assert forall|j: int| 0 <= j < i - 1 implies !sets_mode(#[trigger] rest[j], path, rule_id) by {
            assert(rest[j] == all[j + 1]);
        }
        lemma_override_mode(rest, path, rule_id, i - 1);
    }
}

/// The mode of a rule on a path is that of the first override that fits the path and names the
/// rule; else the global one; a rule that nothing names only detects.
pub proof fn law_rule_mode(policy: LivePolicyState, path: Seq<char>, rule_id: Seq<char>, i: int)
    ensures
        ({
            let all = policy.route_overrides@;
            let mode = types::rule_mode_of(policy, path, rule_id);
            let global = table::at(policy.global_rule_modes.deep_view(), rule_id);
            let none = forall|j: int|
                0 <= j < all.len() ==> !sets_mode(#[trigger] all[j], path, rule_id);
            &&& (0 <= i < all.len() && sets_mode(all[i], path, rule_id) && forall|j: int|
                0 <= j < i ==> !sets_mode(#[trigger] all[j], path, rule_id)) ==> Some(mode)
                == table::at(all[i].rule_modes.deep_view(), rule_id)
            &&& none && global is Some ==> mode == global->0
            &&& none && global is None ==> mode == RuleMode::DetectOnly
        }),
{
    let all = policy.route_overrides@;
    if 0 <= i < all.len() && sets_mode(all[i], path, rule_id) && forall|j: int|
        0 <= j < i ==> !sets_mode(#[trigger] all[j], path, rule_id) {
        lemma_override_mode(all, path, rule_id, i);
    }
    if forall|j: int| 0 <= j < all.len() ==> !sets_mode(#[trigger] all[j], path, rule_id) {
        lemma_override_mode(all, path, rule_id, all.len() as int);
    }
}

/// The key of a route does not depend on the case of the method, and tells routes apart.
pub proof fn law_route_key(a: Seq<char>, b: Seq<char>, p: Seq<char>, q: Seq<char>)
    requires
        !a.contains(':'),
        !b.contains(':'),
    ensures
        types::route_key_of(a, p) == types::route_key_of(b, q) <==> text::upper_of(a)
            == text::upper_of(b) && p == q,
{
    reveal_strlit(":");
    let k = types::route_key_of(a, p);
    let l = types::route_key_of(b, q);
    let m = a.len() as int;
    let n = b.len() as int;
    lemma_upper_keeps_colon(a);
    lemma_upper_keeps_colon(b);
    if k == l {
        assert(k[m] == ':');
        assert(l[n] == ':');
        if m < n {
            assert(l[m] == text::upper_of(b)[m]);
        } else if n < m {
            assert(k[n] == text::upper_of(a)[n]);
        }
        assert(k.take(m) =~= text::upper_of(a));
        assert(l.take(n) =~= text::upper_of(b));
        assert(k.skip(m + 1) =~= p);
        assert(l.skip(n + 1) =~= q);
    }
}

proof fn lemma_upper_keeps_colon(s: Seq<char>)
    ensures
        text::upper_of(s).contains(':') == s.contains(':'),
{
    let u = text::upper_of(s);
    assert forall|i: int| 0 <= i < s.len() implies (#[trigger] u[i] == ':') == (s[i] == ':') by {
        let c = s[i];
        if 'a' <= c && c <= 'z' {
            assert(65 <= text::upper_char_of(c) as u32 <= 90);
        }
    }
    if s.contains(':') {
        let i = choose|i: int| 0 <= i < s.len() && s[i] == ':';
        assert(u[i] == ':');
    }
    if u.contains(':') {
        let i = choose|i: int| 0 <= i < u.len() && u[i] == ':';
        assert(s[i] == ':');
    }
}

/// The route of a request is that of its path without the prefix under which it is proxied.
pub proof fn law_proxied_path(path: Seq<char>)
    ensures
        routes::canonical_path("/proxy"@) == "/"@,
        routes::canonical_path("/proxy/"@ + path) == "/"@ + path,
        !text::has_prefix(path, "/proxy/"@) && path != "/proxy"@ ==> routes::canonical_path(path)
            == path,
        routes::route_of(path) == routes::normal_path(routes::canonical_path(path)),
{
    reveal_strlit("/proxy");
    reveal_strlit("/proxy/");
    let all = "/proxy/"@ + path;
    assert(all.take(7) =~= "/proxy/"@);
    assert(all.skip(7) =~= path);
    assert(all.len() > "/proxy"@.len());
}

} // verus!
