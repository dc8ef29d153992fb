//! What is remembered of the bodies and the routes of requests.

use crate::config::{AppConfig, DiscoveryConfig};
use crate::detection;
use crate::detection::inspection;
use crate::detection::normalization;
use crate::detection::schema_learning;
use crate::detection::schema_learning::LearnedJsonSchemaView;
use crate::headers::Headers;
use crate::inventory;
use crate::json;
use crate::json::{JsonNodeView, JsonView};
use crate::laws::known::law_request_recorded;
use crate::outside;
use crate::routes;
use crate::table;
use crate::text;
use crate::types;
use crate::types::{AuthStatus, LearnedRouteView, RequestContext, Timestamp};
use vstd::prelude::*;
use vstd::utf8;

verus! {

/// The path of a field: its name in small letters and without signs, behind the path of what holds
/// it.
pub open spec fn path_under(prefix: Seq<char>, key: Seq<char>) -> Seq<char> {
    let name = text::lower_of(text::cleaned_of(key, true));
    if prefix.len() == 0 {
        name
    } else {
        prefix + "."@ + name
    }
}

/// Whether a document, or an object within it, has a member with a path and a kind.
pub open spec fn is_field(
    n: JsonNodeView,
    prefix: Seq<char>,
    path: Seq<char>,
    kind: Seq<char>,
) -> bool
    decreases n,
{
    match n.value {
        JsonView::Object(members) => is_among(members, prefix, path, kind),
        _ => false,
    }
}

/// Whether one of some members has a path and a kind, or holds one that has.
pub open spec fn is_among(
    members: Seq<(Seq<char>, JsonNodeView)>,
    prefix: Seq<char>,
    path: Seq<char>,
    kind: Seq<char>,
) -> bool
    decreases members,
{
    if members.len() == 0 {
        false
    } else {
        let own = path_under(prefix, members[0].0);
        ||| text::cleaned_of(members[0].0, true).len() > 0 && (path == own && kind == json::kind_of(
            members[0].1,
        ) || is_field(members[0].1, own, path, kind))
        ||| is_among(members.drop_first(), prefix, path, kind)
    }
}

proof fn lemma_flattened(
    found: Seq<(Seq<char>, Seq<char>)>,
    n: JsonNodeView,
    prefix: Seq<char>,
    max: nat,
    path: Seq<char>,
    kind: Seq<char>,
)
    requires
        table::ascending(found),
    ensures
        ({
            let all = schema_learning::flatten_into(found, n, prefix, max);
            &&& table::ascending(all)
            &&& found.len() <= all.len()
            &&& table::at(found, path) is Some ==> table::at(all, path) is Some
            &&& table::at(all, path) == Some(kind) ==> table::at(found, path) == Some(kind)
                || is_field(n, prefix, path, kind)
            &&& all.len() < max && is_field(n, prefix, path, kind) ==> table::at(all, path) is Some
        }),
    decreases n,
{
    if found.len() < max {
        match n.value {
            JsonView::Object(members) => {
                lemma_flattened_members(found, members, prefix, max, path, kind);
            },
            _ => {},
        }
    }
}

proof fn lemma_flattened_members(
    found: Seq<(Seq<char>, Seq<char>)>,
    members: Seq<(Seq<char>, JsonNodeView)>,
    prefix: Seq<char>,
    max: nat,
    path: Seq<char>,
    kind: Seq<char>,
)
    requires
        table::ascending(found),
    ensures
        ({
            let all = schema_learning::flatten_members(found, members, prefix, max);
            &&& table::ascending(all)
            &&& found.len() <= all.len()
            &&& table::at(found, path) is Some ==> table::at(all, path) is Some
            &&& table::at(all, path) == Some(kind) ==> table::at(found, path) == Some(kind)
                || is_among(members, prefix, path, kind)
            &&& all.len() < max && is_among(members, prefix, path, kind) ==> table::at(
                all,
                path,
            ) is Some
        }),
    decreases members,
{
    if members.len() > 0 && found.len() < max {
        let rest = members.drop_first();
        let own = path_under(prefix, members[0].0);
        let own_kind = json::kind_of(members[0].1);
        assert(text::lower_of(text::cleaned_of(members[0].0, true)).len() == text::cleaned_of(
            members[0].0,
            true,
        ).len());
        if text::lower_of(text::cleaned_of(members[0].0, true)).len() == 0 {
            lemma_flattened_members(found, rest, prefix, max, path, kind);
        } else {
            table::law_put(found, own, own_kind);
            let with_field = table::put(found, own, own_kind);
            assert(path != own ==> table::at(with_field, path) == table::at(found, path));
            if members[0].1.value is Object {
                lemma_flattened(with_field, members[0].1, own, max, path, kind);
                let with_children = schema_learning::flatten_into(
                    with_field,
                    members[0].1,
                    own,
                    max,
                );
                lemma_flattened_members(with_children, rest, prefix, max, path, kind);
            } else {
                assert(!is_field(members[0].1, own, path, kind));
                lemma_flattened_members(with_field, rest, prefix, max, path, kind);
            }
        }
    }
}

/// The fields of a body are the members of its objects, at any depth, each with its kind: no other,
/// and all of them where there is room left.
pub proof fn law_fields_of_body(n: JsonNodeView, max: usize, path: Seq<char>, kind: Seq<char>)
    ensures
        ({
            let all = schema_learning::fields_of(n, max);
            &&& table::at(all, path) == Some(kind) ==> is_field(n, Seq::empty(), path, kind)
            &&& all.len() < max && is_field(n, Seq::empty(), path, kind) ==> table::at(
                all,
                path,
            ) is Some
            &&& table::ascending(all)
        }),
{
    lemma_flattened(Seq::empty(), n, Seq::empty(), max as nat, path, kind);
}

/// The signs that are taken out of a name.
pub proof fn law_cleaned(s: Seq<char>, dash: bool)
    ensures
        text::cleaned_of(s, dash) == s.filter(
            |c: char|
                'a' <= c <= 'z' || 'A' <= c <= 'Z' || '0' <= c <= '9' || c == '_' || dash && c
                    == '-',
        ),
    decreases s.len(),
{
    reveal(Seq::filter);
    let keep = |c: char|
        'a' <= c <= 'z' || 'A' <= c <= 'Z' || '0' <= c <= '9' || c == '_' || dash && c == '-';
    if s.len() > 0 {
        law_cleaned(s.drop_last(), dash);
        assert(text::is_kept_char(s.last(), dash) == keep(s.last()));
    } else {
        assert(s.filter(keep) =~= Seq::empty());
    }
}

proof fn lemma_without<V>(s: Seq<(Seq<char>, V)>, i: int, key: Seq<char>)
    requires
        table::ascending(s),
        0 <= i < s.len(),
        key != s[i].0,
    ensures
        table::ascending(s.remove(i)),
        table::at(s.remove(i), key) == table::at(s, key),
{
    let t = s.remove(i);
    assert(table::ascending(t)) by {
        assert forall|a: int, b: int| 0 <= a < b < t.len() implies text::less_of(
            (#[trigger] t[a]).0,
            (#[trigger] t[b]).0,
        ) by {
            let x = if a < i {
                a
            } else {
                a + 1
            };
            let y = if b < i {
                b
            } else {
                b + 1
            };
            assert(t[a] == s[x] && t[b] == s[y]);
        }
    }
    table::lemma_index(s, key);
    table::lemma_index(t, key);
    match table::index_of(s, key) {
        Some(k) => {
            let at = if k < i {
                k
            } else {
                k - 1
            };
            assert(t[at] == s[k]);
            table::lemma_index_unique(t, at);
        },
        None => {
            if table::index_of(t, key) is Some {
                let k = table::index_of(t, key)->0;
                let at = if k < i {
                    k
                } else {
                    k + 1
                };
                assert(s[at] == t[k]);
                table::lemma_index_unique(s, at);
            }
        },
    }
}

/// A body is learned at its route, and at no other: only where there is no room for a new route does
/// one of the routes with the fewest samples give way.
pub proof fn law_body_learned(
    m: Seq<(Seq<char>, LearnedJsonSchemaView)>,
    route_key: Seq<char>,
    n: JsonNodeView,
    body_len: usize,
    config: DiscoveryConfig,
    other: Seq<char>,
)
    requires
        table::ascending(m),
    ensures
        ({
            let after = schema_learning::memory_after(m, route_key, n, body_len, config);
            let before = match table::at(m, route_key) {
                Some(schema) => schema,
                None => LearnedJsonSchemaView {
                    route_key,
                    samples: 0,
                    fields: Seq::empty(),
                    max_depth_seen: 0,
                    max_array_len_seen: 0,
                    max_body_bytes_seen: 0,
                },
            };
            let crowded = table::at(m, route_key) is None && m.len() >= config.max_schema_routes
                && m.len() > 0;
            let gone = m[schema_learning::fewest_samples(m)];
            &&& table::ascending(after)
            &&& table::at(after, route_key) == Some(
                schema_learning::schema_after(
                    before,
                    schema_learning::fields_of(n, config.max_schema_fields),
                    json::capped(json::depth_of(n)) as usize,
                    json::array_len_of(n) as usize,
                    body_len,
                ),
            )
            &&& !crowded && other != route_key ==> table::at(after, other) == table::at(m, other)
            &&& crowded ==> forall|i: int|
                0 <= i < m.len() ==> gone.1.samples <= (#[trigger] m[i]).1.samples
            &&& crowded && other != route_key && other != gone.0 ==> table::at(after, other)
                == table::at(m, other)
        }),
{
    let room = schema_learning::with_room(m, route_key, config.max_schema_routes);
    let schema = schema_learning::schema_after(
        schema_learning::schema_for(m, route_key),
        schema_learning::fields_of(n, config.max_schema_fields),
        json::capped(json::depth_of(n)) as usize,
        json::array_len_of(n) as usize,
        body_len,
    );
    if table::at(m, route_key) is None && m.len() >= config.max_schema_routes && m.len() > 0 {
        schema_learning::law_fewest_samples(m);
        let i = schema_learning::fewest_samples(m);
        table::lemma_index_unique(m, i);
        lemma_without(m, i, route_key);
        if other != m[i].0 {
            lemma_without(m, i, other);
        }
    }
    table::law_put(room, route_key, schema);
}

/// The body of a request is learned at the route of the request, where learning is on and the body
/// is JSON and said to be.
pub proof fn law_request_taught(
    config: AppConfig,
    schemas: Seq<(Seq<char>, LearnedJsonSchemaView)>,
    request: RequestContext,
    h: Headers,
)
    ensures
        ({
            let after = inspection::learned_after(config, schemas, request, h);
            let body = request.body_preview.deep_view();
            let declared = normalization::normalized_of(
                request,
                h,
                detection::limits_of(config),
            ).content_type;
            let parsed = outside::json_parsed(utf8::encode_utf8(body->0));
            let taught = config.discovery.enabled && body is Some && text::trim_of(body->0).len()
                > 0 && declared is Some && text::has_part(declared->0, "application/json"@)
                && parsed is Some;
            &&& !taught ==> after == schemas
            &&& taught ==> after == schema_learning::memory_after(
                schemas,
                text::upper_of(request.method@) + ":"@ + routes::route_of(request.path@),
                parsed->0,
                text::byte_len_of(body->0) as usize,
                config.discovery,
            )
        }),
{
}

/// A request is remembered at its own route, with credentials where it satisfied what was asked.
pub proof fn law_request_remembered(
    config: AppConfig,
    known: Seq<LearnedRouteView>,
    request: RequestContext,
    now: Timestamp,
)
    requires
        inventory::keys_apart(known),
    ensures
        ({
            let after = inspection::known_after(config, known, request, now);
            let key = types::route_key_of(request.method@, routes::route_of(request.path@));
            let before = inventory::entry(known, key);
            let at = inventory::entry(after, key);
            &&& at is Some && at->0.last_seen == now
            &&& before is None ==> at->0.hits == 1 && at->0.has_auth == (request.auth_status
                == AuthStatus::Satisfied)
            &&& before is Some && before->0.hits < u64::MAX ==> at->0.hits == before->0.hits + 1
            &&& before is Some ==> at->0.has_auth == (before->0.has_auth || request.auth_status
                == AuthStatus::Satisfied)
        }),
{
    law_request_recorded(
        known,
        request.method@,
        routes::route_of(request.path@),
        request.auth_status == AuthStatus::Satisfied,
        now,
        config.discovery.max_learned_routes,
        Seq::empty(),
    );
}

} // verus!
