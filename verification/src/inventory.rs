//! The inventory of routes that live traffic has shown.

use crate::config::AppConfig;
use crate::routes;
use crate::routes::CompiledRouteSpecView;
use crate::text;
use crate::types;
use crate::types::{
    ApiInventoryStatus, ApprovedShadowRoute, LearnedRoute, LearnedRouteView, ManagedSpecRoute,
    PromotedSpecRoute, Timestamp,
};
use vstd::prelude::*;

verus! {

/// How many different content types and status codes are kept for a route.
pub const MAX_OBSERVED_VALUES: usize = 32;

/// The routes that were seen, each under its key once.
#[derive(Debug)]
pub struct RouteMemory {
    routes: Vec<LearnedRoute>,
}

pub open spec fn key_of(r: LearnedRouteView) -> Seq<char> {
    types::route_key_of(r.method, r.normalized_path)
}

/// Whether every route has a key of its own.
pub open spec fn keys_apart(s: Seq<LearnedRouteView>) -> bool {
    forall|i: int, j: int| 0 <= i < j < s.len() ==> key_of(#[trigger] s[i]) != key_of(#[trigger] s[j])
}

/// The position of the route with a key, if there is one.
pub open spec fn find_key(s: Seq<LearnedRouteView>, key: Seq<char>) -> Option<int>
    decreases s.len(),
{
    if s.len() == 0 {
        None
    } else if key_of(s.last()) == key {
        Some(s.len() - 1)
    } else {
        find_key(s.drop_last(), key)
    }
}

pub proof fn lemma_find_key(s: Seq<LearnedRouteView>, key: Seq<char>)
    ensures
        match find_key(s, key) {
            Some(i) => 0 <= i < s.len() && key_of(s[i]) == key,
            None => forall|i: int| 0 <= i < s.len() ==> key_of(#[trigger] s[i]) != key,
        },
    decreases s.len(),
{
    if s.len() > 0 {
        lemma_find_key(s.drop_last(), key);
        if find_key(s, key) is None {
            assert forall|i: int| 0 <= i < s.len() implies key_of(#[trigger] s[i]) != key by {
                if i < s.len() - 1 {
                    assert(key_of(s.drop_last()[i]) != key);
                }
            }
        }
    }
}

proof fn lemma_upper_idempotent(s: Seq<char>)
    ensures
        text::upper_of(text::upper_of(s)) == text::upper_of(s),
{
    assert forall|i: int| 0 <= i < s.len() implies text::upper_char_of(
        text::upper_of(s)[i],
    ) == text::upper_of(s)[i] by {
        let c = s[i];
        if 'a' <= c && c <= 'z' {
            assert(65 <= ((c as u32 - 32) as char) as u32 <= 90);
        }
    }
    assert(text::upper_of(text::upper_of(s)) =~= text::upper_of(s));
}

/// The position of a route with the fewest hits; of several, the first.
pub open spec fn fewest_hits(s: Seq<LearnedRouteView>) -> int
    decreases s.len(),
{
    if s.len() <= 1 {
        0
    } else {
        let j = fewest_hits(s.drop_last());
        if s.last().hits < s[j].hits {
            s.len() - 1
        } else {
            j
        }
    }
}

/// No route has fewer hits than the one that gives way.
pub proof fn law_fewest_hits(s: Seq<LearnedRouteView>)
    requires
        s.len() > 0,
    ensures
        0 <= fewest_hits(s) < s.len(),
        forall|i: int| 0 <= i < s.len() ==> s[fewest_hits(s)].hits <= (#[trigger] s[i]).hits,
    decreases s.len(),
{
    if s.len() > 1 {
        law_fewest_hits(s.drop_last());
        let j = fewest_hits(s.drop_last());
        assert(s.drop_last()[j] == s[j]);
        assert forall|i: int| 0 <= i < s.len() implies s[fewest_hits(s)].hits <= (
        #[trigger] s[i]).hits by {
            if i < s.len() - 1 {
                assert(s.drop_last()[i].hits >= s.drop_last()[j].hits);
            }
        }
    }
}

/// The inventory with room for one more route.
pub open spec fn with_room(s: Seq<LearnedRouteView>, max_routes: usize) -> Seq<LearnedRouteView> {
    if s.len() >= max_routes && s.len() > 0 {
        s.remove(fewest_hits(s))
    } else {
        s
    }
}

/// A route on its first hit.
pub open spec fn new_route(
    method: Seq<char>,
    path: Seq<char>,
    has_auth: bool,
    now: Timestamp,
) -> LearnedRouteView {
    LearnedRouteView {
        method: text::upper_of(method),
        normalized_path: path,
        first_seen: now,
        last_seen: now,
        hits: 1,
        has_auth,
        request_content_types: Seq::empty(),
        response_content_types: Seq::empty(),
        observed_status_codes: Seq::empty(),
        min_request_bytes: None,
        max_request_bytes: None,
        min_response_bytes: None,
        max_response_bytes: None,
        status: ApiInventoryStatus::New,
    }
}

/// One hit more; the count stops at its largest value.
pub open spec fn next_hits(hits: u64) -> u64 {
    if hits < u64::MAX {
        (hits + 1) as u64
    } else {
        hits
    }
}

/// A known route after one more hit.
pub open spec fn hit_route(r: LearnedRouteView, has_auth: bool, now: Timestamp) -> LearnedRouteView {
    LearnedRouteView {
        last_seen: now,
        hits: next_hits(r.hits),
        has_auth: r.has_auth || has_auth,
        ..r
    }
}

/// The inventory after a request to a route.
pub open spec fn remembered(
    s: Seq<LearnedRouteView>,
    method: Seq<char>,
    path: Seq<char>,
    has_auth: bool,
    now: Timestamp,
    max_routes: usize,
) -> Seq<LearnedRouteView> {
    match find_key(s, types::route_key_of(method, path)) {
        Some(i) => s.update(i, hit_route(s[i], has_auth, now)),
        None => with_room(s, max_routes).push(new_route(method, path, has_auth, now)),
    }
}

/// How often the route of a request was hit, that request included.
pub open spec fn hits_after(
    s: Seq<LearnedRouteView>,
    method: Seq<char>,
    path: Seq<char>,
) -> u64 {
    match find_key(s, types::route_key_of(method, path)) {
        Some(i) => next_hits(s[i].hits),
        None => 1,
    }
}

/// A known route with what another record of it adds: the earlier start, the later end, the larger
/// count.
pub open spec fn merged_route(r: LearnedRouteView, other: LearnedRouteView) -> LearnedRouteView {
    LearnedRouteView {
        first_seen: if other.first_seen < r.first_seen {
            other.first_seen
        } else {
            r.first_seen
        },
        last_seen: if other.last_seen > r.last_seen {
            other.last_seen
        } else {
            r.last_seen
        },
        hits: if other.hits > r.hits {
            other.hits
        } else {
            r.hits
        },
        has_auth: r.has_auth || other.has_auth,
        ..r
    }
}

/// The inventory after one record was restored.
pub open spec fn restored_one(s: Seq<LearnedRouteView>, r: LearnedRouteView) -> Seq<
    LearnedRouteView,
> {
    match find_key(s, key_of(r)) {
        Some(i) => s.update(i, merged_route(s[i], r)),
        None => s.push(r),
    }
}

/// The inventory after some records were restored, in order.
pub open spec fn restored(s: Seq<LearnedRouteView>, records: Seq<LearnedRouteView>) -> Seq<
    LearnedRouteView,
>
    decreases records.len(),
{
    if records.len() == 0 {
        s
    } else {
        restored_one(restored(s, records.drop_last()), records.last())
    }
}

proof fn lemma_update_apart(s: Seq<LearnedRouteView>, i: int, r: LearnedRouteView)
    requires
        keys_apart(s),
        0 <= i < s.len(),
        key_of(r) == key_of(s[i]),
    ensures
        keys_apart(s.update(i, r)),
{
    let t = s.update(i, r);
    assert forall|a: int, b: int| 0 <= a < b < t.len() implies key_of(#[trigger] t[a]) != key_of(
        #[trigger] t[b],
    ) by {
        assert(key_of(s[a]) != key_of(s[b]));
    }
}

proof fn lemma_push_apart(s: Seq<LearnedRouteView>, r: LearnedRouteView)
    requires
        keys_apart(s),
        find_key(s, key_of(r)) is None,
    ensures
        keys_apart(s.push(r)),
{
    lemma_find_key(s, key_of(r));
    let t = s.push(r);
    assert forall|a: int, b: int| 0 <= a < b < t.len() implies key_of(#[trigger] t[a]) != key_of(
        #[trigger] t[b],
    ) by {
        if b < s.len() {
            assert(key_of(s[a]) != key_of(s[b]));
        } else {
            assert(key_of(s[a]) != key_of(r));
        }
    }
}

proof fn lemma_remove_apart(s: Seq<LearnedRouteView>, i: int, key: Seq<char>)
    requires
        keys_apart(s),
        0 <= i < s.len(),
        find_key(s, key) is None,
    ensures
        keys_apart(s.remove(i)),
        find_key(s.remove(i), key) is None,
{
    lemma_find_key(s, key);
    let t = s.remove(i);
    assert forall|a: int, b: int| 0 <= a < b < t.len() implies key_of(#[trigger] t[a]) != key_of(
        #[trigger] t[b],
    ) by {
        let x = if a < i {
            a
        } else {
            a + 1
        };
        let y = if b < i {
            b
        } else {
            b + 1
        };
        assert(t[a] == s[x]);
        assert(t[b] == s[y]);
        assert(key_of(s[x]) != key_of(s[y]));
    }
    lemma_find_key(t, key);
    if find_key(t, key) is Some {
        let p = find_key(t, key)->0;
        let x = if p < i {
            p
        } else {
            p + 1
        };
        assert(t[p] == s[x]);
        assert(key_of(s[x]) != key);
    }
}

impl DeepView for RouteMemory {
    type V = Seq<LearnedRouteView>;

    closed spec fn deep_view(&self) -> Seq<LearnedRouteView> {
        self.routes.deep_view()
    }
}

fn replace_route(v: &mut Vec<LearnedRoute>, i: usize, r: LearnedRoute)
    requires
        i < old(v)@.len(),
    ensures
        final(v).deep_view() == old(v).deep_view().update(i as int, r.deep_view()),
{
    v.set(i, r);
    assert(v.deep_view() =~= old(v).deep_view().update(i as int, r.deep_view()));
}

fn push_route(v: &mut Vec<LearnedRoute>, r: LearnedRoute)
    ensures
        final(v).deep_view() == old(v).deep_view().push(r.deep_view()),
{
    v.push(r);
    assert(v.deep_view() =~= old(v).deep_view().push(r.deep_view()));
}

fn position(v: &Vec<LearnedRoute>, key: &str) -> (r: Option<usize>)
    ensures
        match r {
            Some(i) => find_key(v.deep_view(), key@) == Some(i as int) && i < v@.len(),
            None => find_key(v.deep_view(), key@) is None,
        },
{
    let ghost all = v.deep_view();
    let mut i: usize = v.len();
    assert(all.take(i as int) =~= all);
    while i > 0
        invariant
            i <= v@.len(),
            all == v.deep_view(),
            find_key(all, key@) == find_key(all.take(i as int), key@),
        decreases i,
    {
        assert(all.take(i as int).drop_last() =~= all.take(i - 1));
        assert(all.take(i as int).last() == all[i - 1]);
        assert(all[i - 1] == v@[i - 1].deep_view());
        let k = types::route_key(v[i - 1].method.as_str(), v[i - 1].normalized_path.as_str());
        if text::same(k.as_str(), key) {
            return Some(i - 1);
        }
        i = i - 1;
    }
    None
}

fn position_of_fewest(v: &Vec<LearnedRoute>) -> (r: usize)
    requires
        v@.len() > 0,
    ensures
        r == fewest_hits(v.deep_view()),
        r < v@.len(),
{
    let ghost all = v.deep_view();
    let mut best: usize = 0;
    let mut i: usize = 1;
    while i < v.len()
        invariant
            1 <= i <= v@.len(),
            all == v.deep_view(),
            best < i,
            best == fewest_hits(all.take(i as int)),
        decreases v@.len() - i,
    {
        assert(all.take(i + 1).drop_last() =~= all.take(i as int));
        assert(all[i as int] == v@[i as int].deep_view());
        assert(all[best as int] == v@[best as int].deep_view());
        if v[i].hits < v[best].hits {
            best = i;
        }
        i = i + 1;
    }
    assert(all.take(i as int) =~= all);
    best
}

impl RouteMemory {
    #[verifier::type_invariant]
    spec fn wf(&self) -> bool {
        keys_apart(self.routes.deep_view())
    }

    pub fn new() -> (r: Self)
        ensures
            r.deep_view() == Seq::<LearnedRouteView>::empty(),
    {
        let routes: Vec<LearnedRoute> = Vec::new();
        assert(routes.deep_view() =~= Seq::empty());
        RouteMemory { routes }
    }

    /// Every route has a key of its own.
    pub fn len(&self) -> (r: usize)
        ensures
            r == self.deep_view().len(),
            keys_apart(self.deep_view()),
    {
        proof {
            use_type_invariant(self);
        }
        self.routes.len()
    }

    fn take_routes(&mut self) -> (r: Vec<LearnedRoute>)
        ensures
            r.deep_view() == old(self).deep_view(),
            keys_apart(r.deep_view()),
            final(self).deep_view() == Seq::<LearnedRouteView>::empty(),
    {
        proof {
            use_type_invariant(&*self);
        }
        let mut routes: Vec<LearnedRoute> = Vec::new();
        assert(routes.deep_view() =~= Seq::empty());
        core::mem::swap(&mut routes, &mut self.routes);
        routes
    }
}

/// Records a request to a route and gives the number of requests to it so far. Where the
/// inventory is full and the route is new, the route with the fewest hits gives way.
pub fn remember_route(
    memory: &mut RouteMemory,
    method: &str,
    normalized_path: &str,
    has_auth: bool,
    now: Timestamp,
    max_routes: usize,
) -> (r: u64)
    ensures
        final(memory).deep_view() == remembered(
            old(memory).deep_view(),
            method@,
            normalized_path@,
            has_auth,
            now,
            max_routes,
        ),
        r == hits_after(old(memory).deep_view(), method@, normalized_path@),
{
    let mut routes = memory.take_routes();
    let ghost before = routes.deep_view();
    let key = types::route_key(method, normalized_path);
    match position(&routes, key.as_str()) {
        Some(i) => {
            let mut route = routes[i].clone();
            assert(before[i as int] == routes@[i as int].deep_view());
            route.last_seen = now;
            let hits: u64 = if route.hits < u64::MAX {
                route.hits + 1
            } else {
                route.hits
            };
            route.hits = hits;
            route.has_auth = route.has_auth || has_auth;
            proof {
                assert(route.deep_view() == hit_route(before[i as int], has_auth, now));
                lemma_update_apart(before, i as int, route.deep_view());
            }
            replace_route(&mut routes, i, route);
            *memory = RouteMemory { routes };
            hits
        },
        None => {
            if routes.len() >= max_routes && routes.len() > 0 {
                let victim = position_of_fewest(&routes);
                routes.remove(victim);
                proof {
                    lemma_remove_apart(before, victim as int, key@);
                    assert(routes.deep_view() =~= before.remove(victim as int));
                }
            }
            let route = LearnedRoute {
                method: text::to_ascii_uppercase(method),
                normalized_path: normalized_path.to_string(),
                first_seen: now,
                last_seen: now,
                hits: 1,
                has_auth,
                request_content_types: Vec::new(),
                response_content_types: Vec::new(),
                observed_status_codes: Vec::new(),
                min_request_bytes: None,
                max_request_bytes: None,
                min_response_bytes: None,
                max_response_bytes: None,
                status: ApiInventoryStatus::New,
            };
            proof {
                lemma_upper_idempotent(method@);
                assert(route.deep_view() =~= new_route(
                    method@,
                    normalized_path@,
                    has_auth,
                    now,
                ));
                lemma_push_apart(routes.deep_view(), route.deep_view());
            }
            push_route(&mut routes, route);
            *memory = RouteMemory { routes };
            1
        },
    }
}

/// Forgets all routes and gives their number.
pub fn clear_learned_routes(memory: &mut RouteMemory) -> (r: usize)
    ensures
        r == old(memory).deep_view().len(),
        final(memory).deep_view() == Seq::<LearnedRouteView>::empty(),
{
    let routes = memory.take_routes();
    routes.len()
}

/// Restores records that were kept elsewhere; a route that is known already gets the wider span
/// and the larger count.
pub fn restore_learned_routes(memory: &mut RouteMemory, records: &Vec<LearnedRoute>)
    ensures
        final(memory).deep_view() == restored(old(memory).deep_view(), records.deep_view()),
{
    let mut routes = memory.take_routes();
    let ghost start = routes.deep_view();
    let ghost all = records.deep_view();
    let mut i: usize = 0;
    assert(all.take(0) =~= Seq::empty());
    while i < records.len()
        invariant
            i <= records@.len(),
            all == records.deep_view(),
            keys_apart(routes.deep_view()),
            routes.deep_view() == restored(start, all.take(i as int)),
        decreases records@.len() - i,
    {
        let record = &records[i];
        let ghost before = routes.deep_view();
        assert(all.take(i + 1).drop_last() =~= all.take(i as int));
        assert(all[i as int] == record.deep_view());
        let key = types::route_key(record.method.as_str(), record.normalized_path.as_str());
        match position(&routes, key.as_str()) {
            Some(at) => {
                let mut route = routes[at].clone();
                assert(before[at as int] == routes@[at as int].deep_view());
                if record.first_seen < route.first_seen {
                    route.first_seen = record.first_seen;
                }
                if record.last_seen > route.last_seen {
                    route.last_seen = record.last_seen;
                }
                if record.hits > route.hits {
                    route.hits = record.hits;
                }
                route.has_auth = route.has_auth || record.has_auth;
                proof {
                    assert(route.deep_view() == merged_route(
                        before[at as int],
                        record.deep_view(),
                    ));
                    lemma_update_apart(before, at as int, route.deep_view());
                }
                replace_route(&mut routes, at, route);
            },
            None => {
                let route = record.clone();
                proof {
                    lemma_push_apart(before, route.deep_view());
                }
                push_route(&mut routes, route);
            },
        }
        i = i + 1;
    }
    assert(all.take(i as int) =~= all);
    *memory = RouteMemory { routes };
}

/// Whether a list of routes is ordered by when they were last seen, the latest first.
pub open spec fn latest_first(s: Seq<LearnedRouteView>) -> bool {
    forall|i: int, j: int|
        0 <= i < j < s.len() ==> (#[trigger] s[i]).last_seen >= (#[trigger] s[j]).last_seen
}

/// All routes, those seen latest first.
pub fn learned_routes_snapshot(memory: &RouteMemory) -> (r: Vec<LearnedRoute>)
    ensures
        latest_first(r.deep_view()),
        r.deep_view().to_multiset() == memory.deep_view().to_multiset(),
{
    let ghost all = memory.routes.deep_view();
    let mut out: Vec<LearnedRoute> = Vec::new();
    let mut i: usize = 0;
    assert(out.deep_view() =~= all.take(0));
    while i < memory.routes.len()
        invariant
            i <= memory.routes@.len(),
            all == memory.routes.deep_view(),
            latest_first(out.deep_view()),
            out.deep_view().to_multiset() == all.take(i as int).to_multiset(),
        decreases memory.routes@.len() - i,
    {
        let route = memory.routes[i].clone();
        let ghost view = route.deep_view();
        let ghost before = out.deep_view();
        assert(view == all[i as int]);
        let mut at: usize = 0;
        while at < out.len() && out[at].last_seen >= route.last_seen
            invariant
                at <= out@.len(),
                before == out.deep_view(),
                forall|j: int|
                    0 <= j < at ==> (#[trigger] before[j]).last_seen >= route.last_seen,
            decreases out@.len() - at,
        {
            assert(before[at as int] == out@[at as int].deep_view());
            at = at + 1;
        }
        assert(at < before.len() ==> before[at as int] == out@[at as int].deep_view());
        out.insert(at, route);
        proof {
            let after = out.deep_view();
            assert(after =~= before.insert(at as int, view));
            assert forall|x: int, y: int| 0 <= x < y < after.len() implies (
            #[trigger] after[x]).last_seen >= (#[trigger] after[y]).last_seen by {
                let px = if x < at {
                    x
                } else {
                    x - 1
                };
                let py = if y < at {
                    y
                } else {
                    y - 1
                };
                if x == at {
                    if py > at {
                        assert(before[at as int].last_seen >= before[py].last_seen);
                    }
                } else if y == at {
                    assert(before[px].last_seen >= route.last_seen);
                } else {
                    assert(before[px].last_seen >= before[py].last_seen);
                }
            }
            vstd::seq_lib::to_multiset_insert(before, at as int, view);
            vstd::seq_lib::to_multiset_build(all.take(i as int), view);
            assert(all.take(i + 1) =~= all.take(i as int).push(view));
        }
        i = i + 1;
    }
    assert(all.take(i as int) =~= all);
    out
}

/// Whether a route is hit often enough and no configured route takes it.
pub open spec fn is_shadow(
    config: AppConfig,
    spec_routes: Seq<CompiledRouteSpecView>,
    r: LearnedRouteView,
) -> bool {
    r.hits >= config.discovery.shadow_min_hits && routes::match_in(
        spec_routes,
        r.method,
        r.normalized_path,
    ) is None
}

/// The shadow routes among some routes, in order.
pub open spec fn shadows_in(
    config: AppConfig,
    spec_routes: Seq<CompiledRouteSpecView>,
    s: Seq<LearnedRouteView>,
) -> Seq<LearnedRouteView>
    decreases s.len(),
{
    if s.len() == 0 {
        Seq::empty()
    } else {
        let before = shadows_in(config, spec_routes, s.drop_last());
        if is_shadow(config, spec_routes, s.last()) {
            before.push(s.last())
        } else {
            before
        }
    }
}

/// The routes of live traffic that are missing from the configured ones.
pub open spec fn shadows_of(config: AppConfig, s: Seq<LearnedRouteView>) -> Seq<LearnedRouteView> {
    if config.discovery.enabled {
        shadows_in(config, routes::compiled_routes(config), s)
    } else {
        Seq::empty()
    }
}

pub fn discover_shadow_apis(config: &AppConfig, memory: &RouteMemory) -> (r: Vec<LearnedRoute>)
    ensures
        r.deep_view() == shadows_of(*config, memory.deep_view()),
{
    let mut out: Vec<LearnedRoute> = Vec::new();
    assert(out.deep_view() =~= Seq::empty());
    if !config.discovery.enabled {
        return out;
    }
    let spec = routes::compiled_spec_db(config);
    let ghost all = memory.routes.deep_view();
    let ghost table = routes::compiled_routes(*config);
    let mut i: usize = 0;
    assert(all.take(0) =~= Seq::empty());
    while i < memory.routes.len()
        invariant
            i <= memory.routes@.len(),
            all == memory.routes.deep_view(),
            table == routes::compiled_routes(*config),
            spec.routes.deep_view() == table,
            out.deep_view() == shadows_in(*config, table, all.take(i as int)),
        decreases memory.routes@.len() - i,
    {
        let route = &memory.routes[i];
        assert(all.take(i + 1).drop_last() =~= all.take(i as int));
        assert(all[i as int] == route.deep_view());
        if route.hits >= config.discovery.shadow_min_hits && routes::spec_match(
            &spec,
            route.method.as_str(),
            route.normalized_path.as_str(),
        ).is_none() {
            push_route(&mut out, route.clone());
        }
        i = i + 1;
    }
    assert(all.take(i as int) =~= all);
    out
}

pub fn discover_shadow_apis_raw(config: &AppConfig, memory: &RouteMemory) -> (r: Vec<LearnedRoute>)
    ensures
        r.deep_view() == shadows_of(*config, memory.deep_view()),
{
    discover_shadow_apis(config, memory)
}

pub fn shadow_routes_snapshot(config: &AppConfig, memory: &RouteMemory) -> (r: Vec<LearnedRoute>)
    ensures
        r.deep_view() == shadows_of(*config, memory.deep_view()),
{
    discover_shadow_apis(config, memory)
}

/// Whether a list of keys is a set of exactly the keys of some routes.
pub open spec fn keys_of_routes(keys: Seq<Seq<char>>, routes: Seq<Seq<char>>) -> bool {
    &&& keys.no_duplicates()
    &&& forall|k: Seq<char>| #[trigger] keys.contains(k) == routes.contains(k)
}

fn push_new(keys: &mut Vec<String>, key: String)
    requires
        old(keys).deep_view().no_duplicates(),
    ensures
        final(keys).deep_view().no_duplicates(),
        forall|k: Seq<char>| #[trigger]
            final(keys).deep_view().contains(k) == (old(keys).deep_view().contains(k) || k == key@),
{
    if !text::list_contains(keys, key.as_str()) {
        let ghost before = keys.deep_view();
        text::push_text(keys, key);
        proof {
            crate::store::lemma_push_fresh(before, key@);
            crate::store::lemma_push_contains(before, key@);
        }
    }
}

/// The keys of the approved routes.
pub open spec fn approved_keys(items: Seq<ApprovedShadowRoute>) -> Seq<Seq<char>> {
    Seq::new(
        items.len(),
        |i: int| types::route_key_of(items[i].method@, items[i].normalized_path@),
    )
}

pub fn approved_shadow_route_keys(items: &Vec<ApprovedShadowRoute>) -> (r: Vec<String>)
    ensures
        keys_of_routes(r.deep_view(), approved_keys(items@)),
{
    let mut out: Vec<String> = Vec::new();
    let ghost all = approved_keys(items@);
    let mut i: usize = 0;
    while i < items.len()
        invariant
            i <= items@.len(),
            all == approved_keys(items@),
            out.deep_view().no_duplicates(),
            forall|k: Seq<char>| #[trigger]
                out.deep_view().contains(k) == all.take(i as int).contains(k),
        decreases items@.len() - i,
    {
        let key = types::route_key(items[i].method.as_str(), items[i].normalized_path.as_str());
        proof {
            assert(all[i as int] == key@);
            assert(all.take(i + 1) =~= all.take(i as int).push(key@));
            crate::store::lemma_push_contains(all.take(i as int), key@);
        }
        push_new(&mut out, key);
        i = i + 1;
    }
    assert(all.take(i as int) =~= all);
    out
}

/// The keys of the promoted routes.
pub open spec fn promoted_keys(items: Seq<PromotedSpecRoute>) -> Seq<Seq<char>> {
    Seq::new(
        items.len(),
        |i: int| types::route_key_of(items[i].method@, items[i].normalized_path@),
    )
}

pub fn promoted_spec_route_keys(items: &Vec<PromotedSpecRoute>) -> (r: Vec<String>)
    ensures
        keys_of_routes(r.deep_view(), promoted_keys(items@)),
{
    let mut out: Vec<String> = Vec::new();
    let ghost all = promoted_keys(items@);
    let mut i: usize = 0;
    while i < items.len()
        invariant
            i <= items@.len(),
            all == promoted_keys(items@),
            out.deep_view().no_duplicates(),
            forall|k: Seq<char>| #[trigger]
                out.deep_view().contains(k) == all.take(i as int).contains(k),
        decreases items@.len() - i,
    {
        let key = types::route_key(items[i].method.as_str(), items[i].normalized_path.as_str());
        proof {
            assert(all[i as int] == key@);
            assert(all.take(i + 1) =~= all.take(i as int).push(key@));
            crate::store::lemma_push_contains(all.take(i as int), key@);
        }
        push_new(&mut out, key);
        i = i + 1;
    }
    assert(all.take(i as int) =~= all);
    out
}

/// The keys of the managed routes.
pub open spec fn managed_keys(items: Seq<ManagedSpecRoute>) -> Seq<Seq<char>> {
    Seq::new(
        items.len(),
        |i: int| types::route_key_of(items[i].method@, items[i].normalized_path@),
    )
}

pub fn managed_spec_route_keys(items: &Vec<ManagedSpecRoute>) -> (r: Vec<String>)
    ensures
        keys_of_routes(r.deep_view(), managed_keys(items@)),
{
    let mut out: Vec<String> = Vec::new();
    let ghost all = managed_keys(items@);
    let mut i: usize = 0;
    while i < items.len()
        invariant
            i <= items@.len(),
            all == managed_keys(items@),
            out.deep_view().no_duplicates(),
            forall|k: Seq<char>| #[trigger]
                out.deep_view().contains(k) == all.take(i as int).contains(k),
        decreases items@.len() - i,
    {
        let key = types::route_key(items[i].method.as_str(), items[i].normalized_path.as_str());
        proof {
            assert(all[i as int] == key@);
            assert(all.take(i + 1) =~= all.take(i as int).push(key@));
            crate::store::lemma_push_contains(all.take(i as int), key@);
        }
        push_new(&mut out, key);
        i = i + 1;
    }
    assert(all.take(i as int) =~= all);
    out
}

/// The routes whose keys are in none of three lists, in order.
pub open spec fn unknown_to(
    s: Seq<LearnedRouteView>,
    approved: Seq<Seq<char>>,
    promoted: Seq<Seq<char>>,
    managed: Seq<Seq<char>>,
) -> Seq<LearnedRouteView>
    decreases s.len(),
{
    if s.len() == 0 {
        Seq::empty()
    } else {
        let before = unknown_to(s.drop_last(), approved, promoted, managed);
        let k = key_of(s.last());
        if !approved.contains(k) && !promoted.contains(k) && !managed.contains(k) {
            before.push(s.last())
        } else {
            before
        }
    }
}

/// The shadow routes that nobody has approved, promoted or taken under management.
pub fn discover_shadow_apis_filtered(
    config: &AppConfig,
    memory: &RouteMemory,
    approved: &Vec<String>,
    promoted: &Vec<String>,
    managed: &Vec<String>,
) -> (r: Vec<LearnedRoute>)
    ensures
        r.deep_view() == unknown_to(
            shadows_of(*config, memory.deep_view()),
            approved.deep_view(),
            promoted.deep_view(),
            managed.deep_view(),
        ),
{
    let found = discover_shadow_apis(config, memory);
    let ghost all = found.deep_view();
    let mut out: Vec<LearnedRoute> = Vec::new();
    let mut i: usize = 0;
    assert(all.take(0) =~= Seq::empty());
    assert(out.deep_view() =~= Seq::empty());
    while i < found.len()
        invariant
            i <= found@.len(),
            all == found.deep_view(),
            out.deep_view() == unknown_to(
                all.take(i as int),
                approved.deep_view(),
                promoted.deep_view(),
                managed.deep_view(),
            ),
        decreases found@.len() - i,
    {
        let route = &found[i];
        assert(all.take(i + 1).drop_last() =~= all.take(i as int));
        assert(all[i as int] == route.deep_view());
        let key = types::route_key(route.method.as_str(), route.normalized_path.as_str());
        if !text::list_contains(approved, key.as_str()) && !text::list_contains(
            promoted,
            key.as_str(),
        ) && !text::list_contains(managed, key.as_str()) {
            push_route(&mut out, route.clone());
        }
        i = i + 1;
    }
    assert(all.take(i as int) =~= all);
    out
}

/// Whether the inventory marks a route as deprecated.
pub open spec fn deprecated_in(
    s: Seq<LearnedRouteView>,
    method: Seq<char>,
    path: Seq<char>,
) -> bool {
    match find_key(s, types::route_key_of(method, path)) {
        Some(i) => s[i].status == ApiInventoryStatus::Deprecated,
        None => false,
    }
}

pub fn is_deprecated_route(memory: &RouteMemory, method: &str, normalized_path: &str) -> (r: bool)
    ensures
        r == deprecated_in(memory.deep_view(), method@, normalized_path@),
{
    let key = types::route_key(method, normalized_path);
    match position(&memory.routes, key.as_str()) {
        Some(i) => {
            assert(memory.routes.deep_view()[i as int] == memory.routes@[i as int].deep_view());
            memory.routes[i].status == ApiInventoryStatus::Deprecated
        },
        None => false,
    }
}

/// The smaller of two sizes, where the first may be missing.
pub open spec fn smaller_size(a: Option<usize>, b: usize) -> Option<usize> {
    match a {
        Some(x) => if x < b {
            Some(x)
        } else {
            Some(b)
        },
        None => Some(b),
    }
}

/// The larger of two sizes, where the first may be missing.
pub open spec fn larger_size(a: Option<usize>, b: usize) -> Option<usize> {
    match a {
        Some(x) => if x > b {
            Some(x)
        } else {
            Some(b)
        },
        None => Some(b),
    }
}

/// A list of texts with one more, where it is new and there is room.
pub open spec fn noted_text(s: Seq<Seq<char>>, v: Option<Seq<char>>) -> Seq<Seq<char>> {
    match v {
        Some(v) => if s.contains(v) || s.len() >= MAX_OBSERVED_VALUES {
            s
        } else {
            s.push(v)
        },
        None => s,
    }
}

/// A list of codes with one more, where it is new and there is room.
pub open spec fn noted_code(s: Seq<u16>, v: u16) -> Seq<u16> {
    if s.contains(v) || s.len() >= MAX_OBSERVED_VALUES {
        s
    } else {
        s.push(v)
    }
}

/// A request and the response to it, as the inventory notes them.
#[derive(Debug)]
pub struct Exchange {
    pub request_content_type: Option<String>,
    pub request_bytes: usize,
    pub response_content_type: Option<String>,
    pub response_bytes: usize,
    pub status_code: u16,
}

/// A route after an exchange was noted.
pub open spec fn noted_route(r: LearnedRouteView, e: Exchange) -> LearnedRouteView {
    LearnedRouteView {
        request_content_types: noted_text(
            r.request_content_types,
            e.request_content_type.deep_view(),
        ),
        response_content_types: noted_text(
            r.response_content_types,
            e.response_content_type.deep_view(),
        ),
        observed_status_codes: noted_code(r.observed_status_codes, e.status_code),
        min_request_bytes: smaller_size(r.min_request_bytes, e.request_bytes),
        max_request_bytes: larger_size(r.max_request_bytes, e.request_bytes),
        min_response_bytes: smaller_size(r.min_response_bytes, e.response_bytes),
        max_response_bytes: larger_size(r.max_response_bytes, e.response_bytes),
        ..r
    }
}

/// The inventory after an exchange was noted; a route that is not in it is not added.
pub open spec fn observed(
    s: Seq<LearnedRouteView>,
    method: Seq<char>,
    path: Seq<char>,
    e: Exchange,
) -> Seq<LearnedRouteView> {
    match find_key(s, types::route_key_of(method, path)) {
        Some(i) => s.update(i, noted_route(s[i], e)),
        None => s,
    }
}

fn note_text(v: &mut Vec<String>, s: &Option<String>)
    ensures
        final(v).deep_view() == noted_text(old(v).deep_view(), s.deep_view()),
{
    if let Some(s) = s {
        if !text::list_contains(v, s.as_str()) && v.len() < MAX_OBSERVED_VALUES {
            text::push_text(v, s.clone());
        }
    }
}

fn note_code(v: &mut Vec<u16>, code: u16)
    ensures
        final(v)@ == noted_code(old(v)@, code),
{
    let mut i: usize = 0;
    while i < v.len()
        invariant
            i <= v@.len(),
            v@ == old(v)@,
            forall|j: int| 0 <= j < i ==> v@[j] != code,
        decreases v@.len() - i,
    {
        if v[i] == code {
            assert(v@.contains(code));
            return;
        }
        i = i + 1;
    }
    if v.len() < MAX_OBSERVED_VALUES {
        v.push(code);
    }
}

fn note_smaller(a: Option<usize>, b: usize) -> (r: Option<usize>)
    ensures
        r == smaller_size(a, b),
{
    match a {
        Some(x) => if x < b {
            Some(x)
        } else {
            Some(b)
        },
        None => Some(b),
    }
}

fn note_larger(a: Option<usize>, b: usize) -> (r: Option<usize>)
    ensures
        r == larger_size(a, b),
{
    match a {
        Some(x) => if x > b {
            Some(x)
        } else {
            Some(b)
        },
        None => Some(b),
    }
}

/// Notes content types, sizes and the status code of an exchange on a known route.
pub fn observe_exchange(
    memory: &mut RouteMemory,
    method: &str,
    normalized_path: &str,
    exchange: &Exchange,
)
    ensures
        final(memory).deep_view() == observed(
            old(memory).deep_view(),
            method@,
            normalized_path@,
            *exchange,
        ),
{
    let mut routes = memory.take_routes();
    let ghost before = routes.deep_view();
    let key = types::route_key(method, normalized_path);
    if let Some(i) = position(&routes, key.as_str()) {
        let mut route = routes[i].clone();
        assert(before[i as int] == routes@[i as int].deep_view());
        note_text(&mut route.request_content_types, &exchange.request_content_type);
        note_text(&mut route.response_content_types, &exchange.response_content_type);
        let ghost codes = route.observed_status_codes.deep_view();
        assert(codes =~= route.observed_status_codes@);
        note_code(&mut route.observed_status_codes, exchange.status_code);
        assert(route.observed_status_codes.deep_view() =~= route.observed_status_codes@);
        route.min_request_bytes = note_smaller(route.min_request_bytes, exchange.request_bytes);
        route.max_request_bytes = note_larger(route.max_request_bytes, exchange.request_bytes);
        route.min_response_bytes = note_smaller(route.min_response_bytes, exchange.response_bytes);
        route.max_response_bytes = note_larger(route.max_response_bytes, exchange.response_bytes);
        proof {
            assert(route.deep_view() == noted_route(before[i as int], *exchange));
            lemma_update_apart(before, i as int, route.deep_view());
        }
        replace_route(&mut routes, i, route);
    }
    *memory = RouteMemory { routes };
}

/// The inventory never grows beyond its limit, and never beyond one route where the limit is zero.
pub proof fn law_inventory_bounded(
    s: Seq<LearnedRouteView>,
    method: Seq<char>,
    path: Seq<char>,
    has_auth: bool,
    now: Timestamp,
    max_routes: usize,
)
    requires
        s.len() <= max_routes || s.len() <= 1,
    ensures
        ({
            let n = remembered(s, method, path, has_auth, now, max_routes).len();
            n <= max_routes || n <= 1
        }),
{
    lemma_find_key(s, types::route_key_of(method, path));
    if s.len() > 0 {
        law_fewest_hits(s);
    }
}

/// A request to a route is counted: afterwards the route is in the inventory with one hit more.
pub proof fn law_request_is_counted(
    s: Seq<LearnedRouteView>,
    method: Seq<char>,
    path: Seq<char>,
    has_auth: bool,
    now: Timestamp,
    max_routes: usize,
)
    requires
        keys_apart(s),
    ensures
        ({
            let after = remembered(s, method, path, has_auth, now, max_routes);
            let at = find_key(after, types::route_key_of(method, path));
            &&& at is Some
            &&& after[at->0].hits == hits_after(s, method, path)
            &&& after[at->0].last_seen == now
        }),
{
    let key = types::route_key_of(method, path);
    let after = remembered(s, method, path, has_auth, now, max_routes);
    lemma_find_key(s, key);
    lemma_find_key(after, key);
    lemma_upper_idempotent(method);
    match find_key(s, key) {
        Some(i) => {
            lemma_update_apart(s, i, hit_route(s[i], has_auth, now));
            assert(key_of(after[i]) == key);
            let p = find_key(after, key)->0;
            if p < i {
                assert(key_of(after[p]) != key_of(after[i]));
            } else if i < p {
                assert(key_of(after[i]) != key_of(after[p]));
            }
        },
        None => {
            assert(key_of(after.last()) == key);
        },
    }
}

/// The route with a key, if the inventory holds it.
pub open spec fn entry(s: Seq<LearnedRouteView>, key: Seq<char>) -> Option<LearnedRouteView> {
    match find_key(s, key) {
        Some(i) => Some(s[i]),
        None => None,
    }
}

/// What is known of the route with a key: the entry of the inventory, if there is one, then the
/// records with that key.
pub open spec fn sources(
    s: Seq<LearnedRouteView>,
    records: Seq<LearnedRouteView>,
    key: Seq<char>,
) -> Seq<LearnedRouteView>
    decreases records.len(),
{
    if records.len() == 0 {
        match entry(s, key) {
            Some(e) => seq![e],
            None => Seq::empty(),
        }
    } else {
        let before = sources(s, records.drop_last(), key);
        if key_of(records.last()) == key {
            before.push(records.last())
        } else {
            before
        }
    }
}

/// Whether a route gathers what several sources say of it: the earliest first sight, the latest
/// last sight, the largest count, authentication where any of them saw it, and all else from the
/// first source.
pub open spec fn gathers(e: LearnedRouteView, all: Seq<LearnedRouteView>) -> bool {
    &&& all.len() > 0
    &&& forall|i: int| 0 <= i < all.len() ==> e.first_seen <= (#[trigger] all[i]).first_seen
    &&& exists|i: int| 0 <= i < all.len() && e.first_seen == (#[trigger] all[i]).first_seen
    &&& forall|i: int| 0 <= i < all.len() ==> e.last_seen >= (#[trigger] all[i]).last_seen
    &&& exists|i: int| 0 <= i < all.len() && e.last_seen == (#[trigger] all[i]).last_seen
    &&& forall|i: int| 0 <= i < all.len() ==> e.hits >= (#[trigger] all[i]).hits
    &&& exists|i: int| 0 <= i < all.len() && e.hits == (#[trigger] all[i]).hits
    &&& e.has_auth == exists|i: int| 0 <= i < all.len() && (#[trigger] all[i]).has_auth
    &&& e == (LearnedRouteView {
        first_seen: e.first_seen,
        last_seen: e.last_seen,
        hits: e.hits,
        has_auth: e.has_auth,
        ..all[0]
    })
}

/// A route with a key of its own is the one that is found.
proof fn lemma_entry_at(s: Seq<LearnedRouteView>, i: int)
    requires
        keys_apart(s),
        0 <= i < s.len(),
    ensures
        find_key(s, key_of(s[i])) == Some(i),
{
    lemma_find_key(s, key_of(s[i]));
    match find_key(s, key_of(s[i])) {
        Some(p) => {
            if p < i {
                assert(key_of(s[p]) != key_of(s[i]));
            } else if i < p {
                assert(key_of(s[i]) != key_of(s[p]));
            }
        },
        None => {
            assert(key_of(s[i]) != key_of(s[i]));
        },
    }
}

/// What one record changes: the route with its key and no other.
proof fn lemma_restored_one(s: Seq<LearnedRouteView>, r: LearnedRouteView, key: Seq<char>)
    requires
        keys_apart(s),
    ensures
        keys_apart(restored_one(s, r)),
        entry(restored_one(s, r), key) == (if key_of(r) == key {
            match entry(s, key) {
                Some(e) => Some(merged_route(e, r)),
                None => Some(r),
            }
        } else {
            entry(s, key)
        }),
{
    let after = restored_one(s, r);
    lemma_find_key(s, key_of(r));
    lemma_find_key(s, key);
    lemma_find_key(after, key);
    match find_key(s, key_of(r)) {
        Some(i) => {
            lemma_update_apart(s, i, merged_route(s[i], r));
            assert(key_of(after[i]) == key_of(r));
            lemma_entry_at(after, i);
            if key_of(r) != key {
                match find_key(s, key) {
                    Some(j) => {
                        assert(after[j] == s[j]);
                        lemma_entry_at(after, j);
                    },
                    None => {
                        if find_key(after, key) is Some {
                            let p = find_key(after, key)->0;
                            assert(after[p] == s[p]);
                        }
                    },
                }
            }
        },
        None => {
            lemma_push_apart(s, r);
            lemma_entry_at(after, s.len() as int);
            assert(after[s.len() as int] == r);
            if key_of(r) != key {
                match find_key(s, key) {
                    Some(j) => {
                        assert(after[j] == s[j]);
                        lemma_entry_at(after, j);
                    },
                    None => {
                        if find_key(after, key) is Some {
                            let p = find_key(after, key)->0;
                            assert(p < s.len());
                            assert(after[p] == s[p]);
                        }
                    },
                }
            }
        },
    }
}

proof fn lemma_gathers_one(r: LearnedRouteView)
    ensures
        gathers(r, seq![r]),
{
    let all = seq![r];
    assert(all[0] == r);
}

proof fn lemma_gathers_more(e: LearnedRouteView, all: Seq<LearnedRouteView>, r: LearnedRouteView)
    requires
        gathers(e, all),
    ensures
        gathers(merged_route(e, r), all.push(r)),
{
    let more = all.push(r);
    let m = merged_route(e, r);
    assert(more.last() == r);
    assert(more[all.len() as int] == r);
    assert(more[0] == all[0]);
    assert forall|i: int| 0 <= i < more.len() implies m.first_seen <= (#[trigger] more[i]).first_seen
        && m.last_seen >= more[i].last_seen && m.hits >= more[i].hits by {
        if i < all.len() {
            assert(more[i] == all[i]);
        }
    }
    let a = choose|i: int| 0 <= i < all.len() && e.first_seen == (#[trigger] all[i]).first_seen;
    let b = choose|i: int| 0 <= i < all.len() && e.last_seen == (#[trigger] all[i]).last_seen;
    let c = choose|i: int| 0 <= i < all.len() && e.hits == (#[trigger] all[i]).hits;
    assert(more[a] == all[a]);
    assert(more[b] == all[b]);
    assert(more[c] == all[c]);
    if e.has_auth {
        let d = choose|i: int| 0 <= i < all.len() && (#[trigger] all[i]).has_auth;
        assert(more[d] == all[d]);
    }
    if exists|i: int| 0 <= i < more.len() && (#[trigger] more[i]).has_auth {
        let d = choose|i: int| 0 <= i < more.len() && (#[trigger] more[i]).has_auth;
        if d < all.len() {
            assert(more[d] == all[d]);
        }
    }
}

/// After records were restored, the inventory holds the routes that it held and those of the
/// records, each once. A route of the records gathers what the inventory and the records say of
/// it; every other route is as it was.
pub proof fn law_restored_routes(
    s: Seq<LearnedRouteView>,
    records: Seq<LearnedRouteView>,
    key: Seq<char>,
)
    requires
        keys_apart(s),
    ensures
        keys_apart(restored(s, records)),
        entry(restored(s, records), key) is Some <==> entry(s, key) is Some || exists|i: int|
            0 <= i < records.len() && key_of(#[trigger] records[i]) == key,
        match entry(restored(s, records), key) {
            Some(e) => key_of(e) == key && gathers(e, sources(s, records, key)),
            None => sources(s, records, key).len() == 0,
        },
        (forall|i: int| 0 <= i < records.len() ==> key_of(#[trigger] records[i]) != key)
            ==> entry(restored(s, records), key) == entry(s, key),
    decreases records.len(),
{
    let after = restored(s, records);
    if records.len() == 0 {
        lemma_find_key(s, key);
        if let Some(e) = entry(s, key) {
            lemma_gathers_one(e);
        }
    } else {
        let front = records.drop_last();
        let before = restored(s, front);
        let r = records.last();
        law_restored_routes(s, front, key);
        lemma_restored_one(before, r, key);
        lemma_find_key(after, key);
        if key_of(r) == key {
            assert(key_of(records[records.len() - 1]) == key);
            match entry(before, key) {
                Some(e) => {
                    lemma_gathers_more(e, sources(s, front, key), r);
                },
                None => {
                    lemma_gathers_one(r);
                    assert(sources(s, records, key) =~= seq![r]);
                },
            }
        } else {
            if exists|i: int| 0 <= i < records.len() && key_of(#[trigger] records[i]) == key {
                let i = choose|i: int|
                    0 <= i < records.len() && key_of(#[trigger] records[i]) == key;
                assert(i < front.len());
                assert(key_of(front[i]) == key);
            }
            if exists|i: int| 0 <= i < front.len() && key_of(#[trigger] front[i]) == key {
                let i = choose|i: int| 0 <= i < front.len() && key_of(#[trigger] front[i]) == key;
                assert(key_of(records[i]) == key);
            }
        }
    }
}

/// Whether the inventory says of a route all that a record says of it.
spec fn absorbed(s: Seq<LearnedRouteView>, r: LearnedRouteView) -> bool {
    match entry(s, key_of(r)) {
        Some(e) => merged_route(e, r) == e,
        None => false,
    }
}

proof fn lemma_all_absorbed(s: Seq<LearnedRouteView>, records: Seq<LearnedRouteView>)
    requires
        keys_apart(s),
    ensures
        keys_apart(restored(s, records)),
        forall|i: int|
            0 <= i < records.len() ==> absorbed(restored(s, records), #[trigger] records[i]),
    decreases records.len(),
{
    if records.len() > 0 {
        let front = records.drop_last();
        let before = restored(s, front);
        let r = records.last();
        lemma_all_absorbed(s, front);
        assert forall|i: int| 0 <= i < records.len() implies absorbed(
            restored(s, records),
            #[trigger] records[i],
        ) by {
            lemma_restored_one(before, r, key_of(records[i]));
            if i < front.len() {
                assert(front[i] == records[i]);
                assert(absorbed(before, front[i]));
            }
        }
        lemma_restored_one(before, r, key_of(r));
    }
}

proof fn lemma_absorbed_unchanged(s: Seq<LearnedRouteView>, records: Seq<LearnedRouteView>)
    requires
        forall|i: int| 0 <= i < records.len() ==> absorbed(s, #[trigger] records[i]),
    ensures
        restored(s, records) == s,
    decreases records.len(),
{
    if records.len() > 0 {
        let front = records.drop_last();
        assert forall|i: int| 0 <= i < front.len() implies absorbed(s, #[trigger] front[i]) by {
            assert(front[i] == records[i]);
        }
        lemma_absorbed_unchanged(s, front);
        let r = records.last();
        assert(absorbed(s, records[records.len() - 1]));
        lemma_find_key(s, key_of(r));
        let i = find_key(s, key_of(r))->0;
        assert(s.update(i, s[i]) =~= s);
    }
}

/// Restoring records a second time changes nothing.
pub proof fn law_restore_idempotent(s: Seq<LearnedRouteView>, records: Seq<LearnedRouteView>)
    requires
        keys_apart(s),
    ensures
        restored(restored(s, records), records) == restored(s, records),
{
    lemma_all_absorbed(s, records);
    lemma_absorbed_unchanged(restored(s, records), records);
}

} // verus!
