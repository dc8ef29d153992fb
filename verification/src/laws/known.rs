//! What is known of the routes that live traffic showed.

use crate::config::AppConfig;
use crate::inventory;
use crate::inventory::Exchange;
use crate::laws::declared;
use crate::proxy;
use crate::routes;
use crate::text;
use crate::types;
use crate::types::{
    ApiInventoryStatus, AttackClass, LearnedRouteView, LivePolicyState, RequestContext, Severity,
    Timestamp,
};
use vstd::prelude::*;

verus! {

proof fn lemma_entry_at(s: Seq<LearnedRouteView>, i: int)
    requires
        inventory::keys_apart(s),
        0 <= i < s.len(),
    ensures
        inventory::find_key(s, inventory::key_of(s[i])) == Some(i),
{
    let key = inventory::key_of(s[i]);
    inventory::lemma_find_key(s, key);
    match inventory::find_key(s, key) {
        Some(p) => {
            if p < i {
                assert(inventory::key_of(s[p]) != inventory::key_of(s[i]));
            } else if i < p {
                assert(inventory::key_of(s[i]) != inventory::key_of(s[p]));
            }
        },
        None => {
            assert(inventory::key_of(s[i]) != key);
        },
    }
}

proof fn lemma_updated(s: Seq<LearnedRouteView>, i: int, r: LearnedRouteView, key: Seq<char>)
    requires
        inventory::keys_apart(s),
        0 <= i < s.len(),
        inventory::key_of(r) == inventory::key_of(s[i]),
    ensures
        inventory::keys_apart(s.update(i, r)),
        inventory::entry(s.update(i, r), key) == (if key == inventory::key_of(s[i]) {
            Some(r)
        } else {
            inventory::entry(s, key)
        }),
{
    let t = s.update(i, r);
    assert forall|a: int, b: int| 0 <= a < b < t.len() implies inventory::key_of(#[trigger] t[a])
        != inventory::key_of(#[trigger] t[b]) by {
        assert(inventory::key_of(s[a]) != inventory::key_of(s[b]));
    }
    lemma_entry_at(t, i);
    inventory::lemma_find_key(s, key);
    inventory::lemma_find_key(t, key);
    if key != inventory::key_of(s[i]) {
        match inventory::find_key(s, key) {
            Some(j) => {
                assert(t[j] == s[j]);
                lemma_entry_at(t, j);
            },
            None => {
                if inventory::find_key(t, key) is Some {
                    let p = inventory::find_key(t, key)->0;
                    assert(t[p] == s[p]);
                }
            },
        }
    }
}

proof fn lemma_pushed(s: Seq<LearnedRouteView>, r: LearnedRouteView, key: Seq<char>)
    requires
        inventory::keys_apart(s),
        inventory::entry(s, inventory::key_of(r)) is None,
    ensures
        inventory::keys_apart(s.push(r)),
        inventory::entry(s.push(r), key) == (if key == inventory::key_of(r) {
            Some(r)
        } else {
            inventory::entry(s, key)
        }),
{
    let t = s.push(r);
    inventory::lemma_find_key(s, inventory::key_of(r));
    assert forall|a: int, b: int| 0 <= a < b < t.len() implies inventory::key_of(#[trigger] t[a])
        != inventory::key_of(#[trigger] t[b]) by {
        if b < s.len() {
            assert(inventory::key_of(s[a]) != inventory::key_of(s[b]));
        } else {
            assert(inventory::key_of(s[a]) != inventory::key_of(r));
        }
    }
    lemma_entry_at(t, s.len() as int);
    inventory::lemma_find_key(s, key);
    inventory::lemma_find_key(t, key);
    if key != inventory::key_of(r) {
        match inventory::find_key(s, key) {
            Some(j) => {
                assert(t[j] == s[j]);
                lemma_entry_at(t, j);
            },
            None => {
                if inventory::find_key(t, key) is Some {
                    let p = inventory::find_key(t, key)->0;
                    assert(p < s.len());
                    assert(t[p] == s[p]);
                }
            },
        }
    }
}

proof fn lemma_removed(s: Seq<LearnedRouteView>, i: int, key: Seq<char>)
    requires
        inventory::keys_apart(s),
        0 <= i < s.len(),
    ensures
        inventory::keys_apart(s.remove(i)),
        inventory::entry(s.remove(i), key) == (if key == inventory::key_of(s[i]) {
            None
        } else {
            inventory::entry(s, key)
        }),
{
    let t = s.remove(i);
    assert forall|a: int| 0 <= a < t.len() implies #[trigger] t[a] == s[if a < i {
        a
    } else {
        a + 1
    }] by {}
    assert forall|a: int, b: int| 0 <= a < b < t.len() implies inventory::key_of(#[trigger] t[a])
        != inventory::key_of(#[trigger] t[b]) by {
        let x: int = if a < i {
            a
        } else {
            a + 1
        };
        let y: int = if b < i {
            b
        } else {
            b + 1
        };
        assert(inventory::key_of(s[x]) != inventory::key_of(s[y]));
    }
    inventory::lemma_find_key(s, key);
    inventory::lemma_find_key(t, key);
    match inventory::find_key(t, key) {
        Some(p) => {
            let x: int = if p < i {
                p
            } else {
                p + 1
            };
            assert(t[p] == s[x]);
            lemma_entry_at(s, x);
            lemma_entry_at(s, i);
        },
        None => {
            if inventory::find_key(s, key) is Some {
                let j = inventory::find_key(s, key)->0;
                if j != i {
                    let y: int = if j < i {
                        j
                    } else {
                        j - 1
                    };
                    assert(t[y] == s[j]);
                }
            }
        },
    }
}

proof fn lemma_upper_twice(s: Seq<char>)
    ensures
        text::upper_of(text::upper_of(s)) == text::upper_of(s),
{
    assert forall|i: int| 0 <= i < s.len() implies text::upper_char_of(
        #[trigger] text::upper_of(s)[i],
    ) == text::upper_of(s)[i] by {
        let c = s[i];
        if 'a' <= c && c <= 'z' {
            assert(65 <= text::upper_char_of(c) as u32 <= 90);
        }
    }
    assert(text::upper_of(text::upper_of(s)) =~= text::upper_of(s));
}

/// A request is recorded at its route: one hit more, seen now, with credentials if it ever had any;
/// a route that was not known starts with one hit. No other route changes, but where the inventory
/// is full and the route is new, one with the fewest hits gives way.
pub proof fn law_request_recorded(
    s: Seq<LearnedRouteView>,
    method: Seq<char>,
    path: Seq<char>,
    has_auth: bool,
    now: Timestamp,
    max_routes: usize,
    other: Seq<char>,
)
    requires
        inventory::keys_apart(s),
    ensures
        ({
            let key = types::route_key_of(method, path);
            let after = inventory::remembered(s, method, path, has_auth, now, max_routes);
            let before = inventory::entry(s, key);
            let at = inventory::entry(after, key);
            let gone = s[inventory::fewest_hits(s)];
            &&& inventory::keys_apart(after)
            &&& at is Some
            &&& at->0.hits == inventory::hits_after(s, method, path)
            &&& at->0.last_seen == now
            &&& before is Some ==> {
                &&& at->0.hits == (if before->0.hits == u64::MAX {
                    u64::MAX as int
                } else {
                    before->0.hits + 1
                })
                &&& at->0.first_seen == before->0.first_seen
                &&& at->0.has_auth == (before->0.has_auth || has_auth)
                &&& at->0.status == before->0.status
                &&& after.len() == s.len()
            }
            &&& before is None ==> {
                &&& at->0.hits == 1
                &&& at->0.first_seen == now
                &&& at->0.has_auth == has_auth
                &&& at->0.status == ApiInventoryStatus::New
                &&& at->0.method == text::upper_of(method)
                &&& at->0.normalized_path == path
            }
            &&& other != key && (before is Some || s.len() < max_routes || s.len() == 0)
                ==> inventory::entry(after, other) == inventory::entry(s, other)
            &&& before is None && s.len() >= max_routes && s.len() > 0 ==> {
                &&& forall|i: int| 0 <= i < s.len() ==> gone.hits <= (#[trigger] s[i]).hits
                &&& other != key && other != inventory::key_of(gone) ==> inventory::entry(
                    after,
                    other,
                ) == inventory::entry(s, other)
                &&& after.len() == s.len()
            }
        }),
{
    let key = types::route_key_of(method, path);
    lemma_upper_twice(method);
    inventory::lemma_find_key(s, key);
    match inventory::find_key(s, key) {
        Some(i) => {
            let r = inventory::hit_route(s[i], has_auth, now);
            lemma_updated(s, i, r, key);
            lemma_updated(s, i, r, other);
        },
        None => {
            let r = inventory::new_route(method, path, has_auth, now);
            if s.len() >= max_routes && s.len() > 0 {
                inventory::law_fewest_hits(s);
                let v = inventory::fewest_hits(s);
                lemma_removed(s, v, key);
                lemma_removed(s, v, other);
                lemma_pushed(s.remove(v), r, key);
                lemma_pushed(s.remove(v), r, other);
            } else {
                lemma_pushed(s, r, key);
                lemma_pushed(s, r, other);
            }
        },
    }
}

/// What an exchange shows of a route is added to what is known of it: new types and statuses, the
/// smallest and the largest sizes. Routes that are not known, and all others, stay as they are.
pub proof fn law_exchange_noted(
    s: Seq<LearnedRouteView>,
    method: Seq<char>,
    path: Seq<char>,
    e: Exchange,
    other: Seq<char>,
)
    requires
        inventory::keys_apart(s),
    ensures
        ({
            let key = types::route_key_of(method, path);
            let after = inventory::observed(s, method, path, e);
            let before = inventory::entry(s, key);
            let at = inventory::entry(after, key);
            &&& before is None ==> after == s
            &&& other != key ==> inventory::entry(after, other) == inventory::entry(s, other)
            &&& before is Some ==> {
                let b = before->0;
                let a = at->0;
                &&& at is Some
                &&& a.hits == b.hits && a.first_seen == b.first_seen && a.last_seen == b.last_seen
                &&& a.status == b.status && a.has_auth == b.has_auth
                &&& a.min_request_bytes is Some && a.min_request_bytes->0 <= e.request_bytes
                &&& b.min_request_bytes is Some ==> a.min_request_bytes->0
                    <= b.min_request_bytes->0
                &&& a.min_request_bytes == Some(e.request_bytes) || a.min_request_bytes
                    == b.min_request_bytes
                &&& a.max_request_bytes is Some && a.max_request_bytes->0 >= e.request_bytes
                &&& b.max_request_bytes is Some ==> a.max_request_bytes->0
                    >= b.max_request_bytes->0
                &&& a.max_request_bytes == Some(e.request_bytes) || a.max_request_bytes
                    == b.max_request_bytes
                &&& a.min_response_bytes is Some && a.min_response_bytes->0 <= e.response_bytes
                &&& b.min_response_bytes is Some ==> a.min_response_bytes->0
                    <= b.min_response_bytes->0
                &&& a.min_response_bytes == Some(e.response_bytes) || a.min_response_bytes
                    == b.min_response_bytes
                &&& a.max_response_bytes is Some && a.max_response_bytes->0 >= e.response_bytes
                &&& b.max_response_bytes is Some ==> a.max_response_bytes->0
                    >= b.max_response_bytes->0
                &&& a.max_response_bytes == Some(e.response_bytes) || a.max_response_bytes
                    == b.max_response_bytes
                &&& is_noted(
                    b.request_content_types,
                    a.request_content_types,
                    e.request_content_type.deep_view(),
                )
                &&& is_noted(
                    b.response_content_types,
                    a.response_content_types,
                    e.response_content_type.deep_view(),
                )
                &&& a.observed_status_codes.contains(e.status_code)
                    || a.observed_status_codes.len() >= inventory::MAX_OBSERVED_VALUES
                &&& a.observed_status_codes == b.observed_status_codes || a.observed_status_codes
                    == b.observed_status_codes.push(e.status_code)
            }
        }),
{
    let key = types::route_key_of(method, path);
    inventory::lemma_find_key(s, key);
    if let Some(i) = inventory::find_key(s, key) {
        let r = inventory::noted_route(s[i], e);
        lemma_updated(s, i, r, key);
        lemma_updated(s, i, r, other);
        let codes = s[i].observed_status_codes;
        if !codes.contains(e.status_code) {
            let more = codes.push(e.status_code);
            assert(more[codes.len() as int] == e.status_code);
        }
        lemma_noted(s[i].request_content_types, e.request_content_type.deep_view());
        lemma_noted(s[i].response_content_types, e.response_content_type.deep_view());
    }
}

/// Whether a value is among those that were noted, unless there are enough of them already.
pub open spec fn is_noted(
    before: Seq<Seq<char>>,
    after: Seq<Seq<char>>,
    v: Option<Seq<char>>,
) -> bool {
    &&& v is None ==> after == before
    &&& v is Some ==> after.contains(v->0) || after.len() >= inventory::MAX_OBSERVED_VALUES
    &&& v is Some ==> after == before || after == before.push(v->0)
}

proof fn lemma_noted(s: Seq<Seq<char>>, v: Option<Seq<char>>)
    ensures
        is_noted(s, inventory::noted_text(s, v), v),
{
    if v is Some && !s.contains(v->0) {
        let more = s.push(v->0);
        assert(more[s.len() as int] == v->0);
    }
}

/// Whether a route was hit often enough and no declared route is like it.
pub open spec fn is_undeclared(config: AppConfig, r: LearnedRouteView) -> bool {
    &&& r.hits >= config.discovery.shadow_min_hits
    &&& forall|i: int|
        0 <= i < config.spec.routes@.len() ==> !declared::is_route_of(
            #[trigger] config.spec.routes@[i],
            r.method,
            r.normalized_path,
        )
}

proof fn lemma_undeclared(config: AppConfig, r: LearnedRouteView)
    ensures
        inventory::is_shadow(config, routes::compiled_routes(config), r) == is_undeclared(config, r),
{
    declared::law_route_matched(config, r.method, r.normalized_path);
    match routes::match_in(routes::compiled_routes(config), r.method, r.normalized_path) {
        Some(_) => {
            let i = choose|i: int| #[trigger]
                declared::is_first_route(config, r.method, r.normalized_path, i);
            assert(declared::is_route_of(config.spec.routes@[i], r.method, r.normalized_path));
        },
        None => {},
    }
}

/// While routes are learned, the shadow routes are the known ones that were hit often enough and are
/// not declared, in order; otherwise there are none.
pub proof fn law_shadow_routes(config: AppConfig, s: Seq<LearnedRouteView>)
    ensures
        inventory::shadows_of(config, s) == (if config.discovery.enabled {
            s.filter(|r: LearnedRouteView| is_undeclared(config, r))
        } else {
            Seq::empty()
        }),
{
    lemma_shadows_in(config, s);
}

proof fn lemma_shadows_in(config: AppConfig, s: Seq<LearnedRouteView>)
    ensures
        inventory::shadows_in(config, routes::compiled_routes(config), s) == s.filter(
            |r: LearnedRouteView| is_undeclared(config, r),
        ),
    decreases s.len(),
{
    reveal(Seq::filter);
    let keep = |r: LearnedRouteView| is_undeclared(config, r);
    if s.len() > 0 {
        lemma_shadows_in(config, s.drop_last());
        lemma_undeclared(config, s.last());
    } else {
        assert(s.filter(keep) =~= Seq::empty());
    }
}

/// Of the shadow routes those remain that nobody approved, promoted or manages.
pub proof fn law_unknown_shadows(
    s: Seq<LearnedRouteView>,
    approved: Seq<Seq<char>>,
    promoted: Seq<Seq<char>>,
    managed: Seq<Seq<char>>,
)
    ensures
        inventory::unknown_to(s, approved, promoted, managed) == s.filter(
            |r: LearnedRouteView|
                {
                    let key = types::route_key_of(r.method, r.normalized_path);
                    !approved.contains(key) && !promoted.contains(key) && !managed.contains(key)
                },
        ),
    decreases s.len(),
{
    reveal(Seq::filter);
    let keep = |r: LearnedRouteView|
        {
            let key = types::route_key_of(r.method, r.normalized_path);
            !approved.contains(key) && !promoted.contains(key) && !managed.contains(key)
        };
    if s.len() > 0 {
        law_unknown_shadows(s.drop_last(), approved, promoted, managed);
    } else {
        assert(s.filter(keep) =~= Seq::empty());
    }
}

/// A request to a shadow route is reported, and no other request.
pub proof fn law_shadow_reported(
    config: AppConfig,
    policy: LivePolicyState,
    known: Seq<LearnedRouteView>,
    context: RequestContext,
)
    ensures
        ({
            let found = proxy::shadow_findings(config, policy, known, context);
            let route = routes::route_of(context.path@);
            let live = config.discovery.enabled && exists|i: int|
                0 <= i < known.len() && is_undeclared(config, #[trigger] known[i])
                    && known[i].normalized_path == route && text::lower_of(known[i].method)
                    == text::lower_of(context.method@);
            &&& !live ==> found.len() == 0
            &&& live ==> found.len() == 1 && found[0].rule_id == "shadow.route_live"@
                && found[0].attack_class == AttackClass::ShadowApi && found[0].severity
                == Severity::Medium && found[0].mode == types::rule_mode_of(
                policy,
                context.path@,
                "shadow.route_live"@,
            )
        }),
{
    law_shadow_routes(config, known);
    let keep = |r: LearnedRouteView| is_undeclared(config, r);
    let shadows = inventory::shadows_of(config, known);
    let route = routes::route_of(context.path@);
    if config.discovery.enabled {
        if exists|i: int|
            0 <= i < known.len() && is_undeclared(config, #[trigger] known[i])
                && known[i].normalized_path == route && text::lower_of(known[i].method)
                == text::lower_of(context.method@) {
            let i = choose|i: int|
                0 <= i < known.len() && is_undeclared(config, #[trigger] known[i])
                    && known[i].normalized_path == route && text::lower_of(known[i].method)
                    == text::lower_of(context.method@);
            known.lemma_filter_contains(keep, i);
            assert(shadows.contains(known[i]));
            let j = choose|j: int| 0 <= j < shadows.len() && shadows[j] == known[i];
            assert(text::lower_of(shadows[j].method) == text::lower_of(context.method@));
        }
        if proxy::among(shadows, context.method@, route) {
            let j = choose|j: int|
                0 <= j < shadows.len() && text::lower_of((#[trigger] shadows[j]).method)
                    == text::lower_of(context.method@) && shadows[j].normalized_path == route;
            known.lemma_filter_pred(keep, j);
            assert(shadows.contains(shadows[j]));
            known.lemma_filter_contains_rev(keep, shadows[j]);
            let i = choose|i: int| 0 <= i < known.len() && known[i] == shadows[j];
            assert(is_undeclared(config, known[i]));
        }
    }
}

} // verus!
