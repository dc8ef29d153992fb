//! Request rates, behaviour baselines and object enumeration, per principal and route.

use crate::store;
use crate::store::{
    Baseline, BehaviorState, BehaviorStateView, RateState, Record, RecordView, SeenId, SeenIdView,
};
use crate::text;
use dashmap::DashMap;
use vstd::prelude::*;

verus! {

/// Nanoseconds in a second.
pub const NANOS: u128 = 1_000_000_000;

/// How long a request counts towards the current rate, in seconds.
pub const HIT_WINDOW_SECS: u64 = 60;

/// The nanoseconds from one point in time to another; none where the other is earlier.
pub open spec fn elapsed_of(now: u64, then: u64) -> nat {
    if now >= then {
        (now - then) as nat
    } else {
        0
    }
}

fn elapsed(now: u64, then: u64) -> (r: u64)
    ensures
        r == elapsed_of(now, then),
{
    if now >= then {
        now - then
    } else {
        0
    }
}

/// Whether a point in time is no more than some seconds ago.
pub open spec fn is_recent(now: u64, then: u64, secs: u64) -> bool {
    elapsed_of(now, then) <= secs * NANOS
}

fn recent(now: u64, then: u64, secs: u64) -> (r: bool)
    ensures
        r == is_recent(now, then, secs),
{
    assert(secs * NANOS <= 0xffff_ffff_ffff_ffff * 1_000_000_000) by (nonlinear_arith)
        requires
            secs <= 0xffff_ffff_ffff_ffff,
            NANOS == 1_000_000_000,
    ;
    elapsed(now, then) as u128 <= secs as u128 * NANOS
}

/// Whether a window of some seconds that started at `then` is still open.
pub open spec fn window_open(now: u64, then: u64, secs: u64) -> bool {
    elapsed_of(now, then) < secs * NANOS
}

fn is_window_open(now: u64, then: u64, secs: u64) -> (r: bool)
    ensures
        r == window_open(now, then, secs),
{
    assert(secs * NANOS <= 0xffff_ffff_ffff_ffff * 1_000_000_000) by (nonlinear_arith)
        requires
            secs <= 0xffff_ffff_ffff_ffff,
            NANOS == 1_000_000_000,
    ;
    (elapsed(now, then) as u128) < secs as u128 * NANOS
}

/// One more, held to the range of `u64`.
pub open spec fn one_more(n: u64) -> u64 {
    if n < u64::MAX {
        (n + 1) as u64
    } else {
        n
    }
}

/// The count of a key after a request: one more in an open window, else one in a new window.
pub open spec fn rate_after(before: Option<RateState>, now: u64, window_secs: u64) -> RateState {
    match before {
        Some(s) => if window_open(now, s.window_start, window_secs) {
            RateState { count: one_more(s.count), window_start: s.window_start }
        } else {
            RateState { count: 1, window_start: now }
        },
        None => RateState { count: 1, window_start: now },
    }
}

/// Whether a request is within the limit. The first request of a window always is.
pub open spec fn admits(
    before: Option<RateState>,
    now: u64,
    limit: u64,
    window_secs: u64,
) -> bool {
    match before {
        Some(s) => window_open(now, s.window_start, window_secs) ==> one_more(s.count) <= limit,
        None => true,
    }
}

/// The count of a key, if there is one.
pub open spec fn rate_in(m: Map<Seq<char>, RecordView>, key: Seq<char>) -> Option<RateState> {
    if m.dom().contains(key) {
        match m[key] {
            RecordView::Rate(s) => Some(s),
            _ => None,
        }
    } else {
        None
    }
}

/// What is known before the first request.
pub open spec fn no_behavior() -> BehaviorStateView {
    BehaviorStateView {
        rps: Baseline { samples: 0, mean_bits: 0, m2_bits: 0 },
        body: Baseline { samples: 0, mean_bits: 0, m2_bits: 0 },
        recent_hits: Seq::empty(),
        recent_object_ids: Seq::empty(),
    }
}

/// Whether something is known of a key.
pub open spec fn has_behavior(m: Map<Seq<char>, RecordView>, key: Seq<char>) -> bool {
    m.dom().contains(key) && m[key] is Behavior
}

/// What is known of a key.
pub open spec fn behavior_in(m: Map<Seq<char>, RecordView>, key: Seq<char>) -> BehaviorStateView {
    if has_behavior(m, key) {
        m[key]->Behavior_0
    } else {
        no_behavior()
    }
}

/// The points in time from the first recent one on.
pub open spec fn recent_of(s: Seq<u64>, now: u64, secs: u64) -> Seq<u64>
    decreases s.len(),
{
    if s.len() == 0 || is_recent(now, s[0], secs) {
        s
    } else {
        recent_of(s.drop_first(), now, secs)
    }
}

/// The identifiers from the first one on that was seen recently.
pub open spec fn recent_ids_of(s: Seq<SeenIdView>, now: u64, secs: u64) -> Seq<SeenIdView>
    decreases s.len(),
{
    if s.len() == 0 || is_recent(now, s[0].at, secs) {
        s
    } else {
        recent_ids_of(s.drop_first(), now, secs)
    }
}

/// Drops the points in time before the first recent one.
pub fn purge_old_hits(queue: &mut Vec<u64>, now: u64, ttl_secs: u64)
    ensures
        final(queue)@ == recent_of(old(queue)@, now, ttl_secs),
{
    let ghost all = queue@;
    let mut i: usize = 0;
    assert(all.skip(0) =~= all);
    while i < queue.len() && !recent(now, queue[i], ttl_secs)
        invariant
            i <= queue@.len(),
            all == queue@,
            recent_of(all, now, ttl_secs) == recent_of(all.skip(i as int), now, ttl_secs),
        decreases queue@.len() - i,
    {
        assert(all.skip(i as int)[0] == all[i as int]);
        assert(all.skip(i as int).drop_first() =~= all.skip(i + 1));
        i = i + 1;
    }
    assert(recent_of(all, now, ttl_secs) == all.skip(i as int)) by {
        if i < all.len() {
            assert(all.skip(i as int)[0] == all[i as int]);
        }
    }
    let mut kept: Vec<u64> = Vec::new();
    let mut j: usize = i;
    while j < queue.len()
        invariant
            i <= j <= queue@.len(),
            all == queue@,
            kept@ == all.subrange(i as int, j as int),
        decreases queue@.len() - j,
    {
        kept.push(queue[j]);
        j = j + 1;
        assert(kept@ =~= all.subrange(i as int, j as int));
    }
    assert(kept@ =~= all.skip(i as int));
    *queue = kept;
}

/// Drops the identifiers before the first one that was seen recently.
pub fn purge_old_object_ids(queue: &mut Vec<SeenId>, now: u64, ttl_secs: u64)
    ensures
        final(queue).deep_view() == recent_ids_of(old(queue).deep_view(), now, ttl_secs),
{
    let ghost all = queue.deep_view();
    let mut i: usize = 0;
    assert(all.skip(0) =~= all);
    while i < queue.len() && !recent(now, queue[i].at, ttl_secs)
        invariant
            i <= queue@.len(),
            all == queue.deep_view(),
            recent_ids_of(all, now, ttl_secs) == recent_ids_of(all.skip(i as int), now, ttl_secs),
        decreases queue@.len() - i,
    {
        assert(all.skip(i as int)[0] == queue@[i as int].deep_view());
        assert(all.skip(i as int).drop_first() =~= all.skip(i + 1));
        i = i + 1;
    }
    assert(recent_ids_of(all, now, ttl_secs) == all.skip(i as int)) by {
        if i < all.len() {
            assert(all.skip(i as int)[0] == queue@[i as int].deep_view());
        }
    }
    let mut kept: Vec<SeenId> = Vec::new();
    let mut j: usize = i;
    while j < queue.len()
        invariant
            i <= j <= queue@.len(),
            all == queue.deep_view(),
            kept.deep_view() == all.subrange(i as int, j as int),
        decreases queue@.len() - j,
    {
        let item = queue[j].clone();
        let ghost view = item.deep_view();
        let ghost before = kept.deep_view();
        assert(view == all[j as int]);
        kept.push(item);
        assert(kept.deep_view() =~= before.push(view));
        j = j + 1;
        assert(kept.deep_view() =~= all.subrange(i as int, j as int));
    }
    assert(kept.deep_view() =~= all.skip(i as int));
    *queue = kept;
}

/// Of times in ascending order exactly the recent ones remain.
pub proof fn law_recent(s: Seq<u64>, now: u64, secs: u64)
    requires
        forall|i: int, j: int| 0 <= i <= j < s.len() ==> s[i] <= s[j],
    ensures
        recent_of(s, now, secs) == s.filter(|t: u64| is_recent(now, t, secs)),
    decreases s.len(),
{
    let keep = |t: u64| is_recent(now, t, secs);
    if s.len() == 0 {
        reveal(Seq::filter);
        assert(s.filter(keep) =~= s);
    } else if is_recent(now, s[0], secs) {
        lemma_filter_all(s, keep);
    } else {
        let rest = s.drop_first();
        assert forall|i: int, j: int| 0 <= i <= j < rest.len() implies rest[i] <= rest[j] by {
            assert(rest[i] == s[i + 1]);
            assert(rest[j] == s[j + 1]);
        }
        law_recent(rest, now, secs);
        lemma_filter_rest(s, keep);
    }
}

proof fn lemma_filter_all(s: Seq<u64>, keep: spec_fn(u64) -> bool)
    requires
        forall|i: int| 0 <= i < s.len() ==> keep(#[trigger] s[i]),
    ensures
        s.filter(keep) == s,
    decreases s.len(),
{
    reveal(Seq::filter);
    if s.len() > 0 {
        lemma_filter_all(s.drop_last(), keep);
        assert(keep(s[s.len() - 1]));
        assert(s.drop_last().push(s.last()) =~= s);
    } else {
        assert(s.filter(keep) =~= s);
    }
}

proof fn lemma_filter_rest(s: Seq<u64>, keep: spec_fn(u64) -> bool)
    requires
        s.len() > 0,
        !keep(s[0]),
    ensures
        s.filter(keep) == s.drop_first().filter(keep),
    decreases s.len(),
{
    reveal(Seq::filter);
    if s.len() == 1 {
        assert(s.drop_last() =~= Seq::empty());
        assert(s.drop_first() =~= Seq::empty());
        assert(s.last() == s[0]);
    } else {
        lemma_filter_rest(s.drop_last(), keep);
        assert(s.drop_last().drop_first() =~= s.drop_first().drop_last());
        assert(s.drop_first().last() == s.last());
    }
}

/// Counts and baselines, by key.
pub struct RateLimiter {
    entries: DashMap<String, Record>,
    behavior: DashMap<String, Record>,
}

/// What is known of one key, for display.
#[derive(Debug)]
pub struct BehaviorBaselineSnapshot {
    pub principal_route_key: String,
    pub rps: Baseline,
    pub body: Baseline,
    pub recent_hits_1m: usize,
    pub distinct_object_ids_5m: usize,
}

#[verifier::ext_equal]
pub struct BehaviorBaselineSnapshotView {
    pub principal_route_key: Seq<char>,
    pub rps: Baseline,
    pub body: Baseline,
    pub recent_hits_1m: usize,
    pub distinct_object_ids_5m: usize,
}

impl DeepView for BehaviorBaselineSnapshot {
    type V = BehaviorBaselineSnapshotView;

    open spec fn deep_view(&self) -> BehaviorBaselineSnapshotView {
        BehaviorBaselineSnapshotView {
            principal_route_key: self.principal_route_key@,
            rps: self.rps,
            body: self.body,
            recent_hits_1m: self.recent_hits_1m,
            distinct_object_ids_5m: self.distinct_object_ids_5m,
        }
    }
}

/// The identifiers alone.
pub open spec fn ids_of(s: Seq<SeenIdView>) -> Seq<Seq<char>> {
    s.map_values(|x: SeenIdView| x.id)
}

/// The number of different identifiers.
pub open spec fn distinct_ids_of(s: Seq<SeenIdView>) -> nat {
    text::distinct_of(ids_of(s)).len()
}

pub fn count_distinct_ids(seen: &Vec<SeenId>) -> (r: usize)
    ensures
        r == distinct_ids_of(seen.deep_view()),
{
    let ghost all = seen.deep_view();
    let mut ids: Vec<String> = Vec::new();
    let mut i: usize = 0;
    assert(ids.deep_view() =~= ids_of(all.take(0)));
    while i < seen.len()
        invariant
            i <= seen@.len(),
            all == seen.deep_view(),
            ids.deep_view() == ids_of(all.take(i as int)),
        decreases seen@.len() - i,
    {
        assert(all[i as int].id == seen@[i as int].id@);
        text::push_text(&mut ids, seen[i].id.clone());
        i = i + 1;
        assert(ids.deep_view() =~= ids_of(all.take(i as int)));
    }
    assert(all.take(i as int) =~= all);
    let distinct = text::distinct(&ids);
    distinct.len()
}

/// The display form of what is known of a key.
pub open spec fn snapshot_of(
    m: Map<Seq<char>, RecordView>,
    key: Seq<char>,
) -> BehaviorBaselineSnapshotView {
    let state = behavior_in(m, key);
    BehaviorBaselineSnapshotView {
        principal_route_key: key,
        rps: state.rps,
        body: state.body,
        recent_hits_1m: state.recent_hits.len() as usize,
        distinct_object_ids_5m: distinct_ids_of(state.recent_object_ids) as usize,
    }
}

/// Whether one key may stand before another: it has more recent requests, or as many and no fewer
/// different identifiers.
pub open spec fn busier(a: BehaviorBaselineSnapshotView, b: BehaviorBaselineSnapshotView) -> bool {
    a.recent_hits_1m > b.recent_hits_1m || (a.recent_hits_1m == b.recent_hits_1m
        && a.distinct_object_ids_5m >= b.distinct_object_ids_5m)
}

/// Whether the busier keys stand first.
pub open spec fn busiest_first(s: Seq<BehaviorBaselineSnapshotView>) -> bool {
    forall|i: int, j: int| 0 <= i < j < s.len() ==> busier(#[trigger] s[i], #[trigger] s[j])
}

/// Whether the list holds every key of which something is known, each once.
pub open spec fn lists_all(
    m: Map<Seq<char>, RecordView>,
    s: Seq<BehaviorBaselineSnapshotView>,
) -> bool {
    &&& forall|i: int|
        0 <= i < s.len() ==> has_behavior(m, (#[trigger] s[i]).principal_route_key) && s[i]
            == snapshot_of(m, s[i].principal_route_key)
    &&& forall|i: int, j: int|
        0 <= i < j < s.len() ==> (#[trigger] s[i]).principal_route_key != (
        #[trigger] s[j]).principal_route_key
    &&& forall|k: Seq<char>| #[trigger]
        has_behavior(m, k) ==> exists|i: int|
            0 <= i < s.len() && (#[trigger] s[i]).principal_route_key == k
}

/// Puts an item where it belongs among items of which the busier stand first.
fn insert_snapshot(items: &mut Vec<BehaviorBaselineSnapshot>, item: BehaviorBaselineSnapshot)
    requires
        busiest_first(old(items).deep_view()),
    ensures
        busiest_first(final(items).deep_view()),
        exists|p: int|
            0 <= p <= old(items).deep_view().len() && final(items).deep_view() == (#[trigger] old(
                items,
            ).deep_view().insert(p, item.deep_view())),
{
    let ghost before = items.deep_view();
    let ghost view = item.deep_view();
    let mut p: usize = items.len();
    while p > 0 && !(items[p - 1].recent_hits_1m > item.recent_hits_1m || (items[p
        - 1].recent_hits_1m == item.recent_hits_1m && items[p - 1].distinct_object_ids_5m
        >= item.distinct_object_ids_5m))
        invariant
            p <= items@.len(),
            before == items.deep_view(),
            view == item.deep_view(),
            forall|i: int| p <= i < before.len() ==> !busier(#[trigger] before[i], view),
        decreases p,
    {
        assert(before[p - 1] == items@[p - 1].deep_view());
        p = p - 1;
    }
    assert(p > 0 ==> busier(before[p - 1], view)) by {
        if p > 0 {
            assert(before[p - 1] == items@[p - 1].deep_view());
        }
    }
    items.insert(p, item);
    assert(items.deep_view() =~= before.insert(p as int, view));
    proof {
        let after = before.insert(p as int, view);
        assert forall|i: int, j: int| 0 <= i < j < after.len() implies busier(
            #[trigger] after[i],
            #[trigger] after[j],
        ) by {
            if j == p {
                assert(after[i] == before[i]);
                if i < p - 1 {
                    assert(busier(before[i], before[p - 1]));
                }
            } else if i == p {
                assert(after[j] == before[j - 1]);
                assert(!busier(before[j - 1], view));
            } else {
                let a = if i < p { i } else { i - 1 };
                let b = if j < p { j } else { j - 1 };
                assert(after[i] == before[a]);
                assert(after[j] == before[b]);
                assert(busier(before[a], before[b]));
            }
        }
    }
}

/// How the keys of an address start.
pub open spec fn source_prefix(ip: Seq<char>) -> Seq<char> {
    "ip:"@ + ip + "|"@
}

/// The keys with a prefix.
pub open spec fn with_prefix(m: Map<Seq<char>, RecordView>, prefix: Seq<char>) -> Set<Seq<char>> {
    m.dom().filter(|k: Seq<char>| text::has_prefix(k, prefix))
}

/// The records whose keys have not the prefix.
pub open spec fn without_prefix(m: Map<Seq<char>, RecordView>, prefix: Seq<char>) -> Map<
    Seq<char>,
    RecordView,
> {
    m.remove_keys(with_prefix(m, prefix))
}

/// A sum held to the range of `usize`.
pub open spec fn records_total(a: nat, b: nat) -> nat {
    if a + b <= usize::MAX {
        a + b
    } else {
        usize::MAX as nat
    }
}

/// Removes the records whose keys have a prefix and counts them.
fn remove_prefixed(m: &mut DashMap<String, Record>, prefix: &str) -> (r: usize)
    ensures
        store::records_of(*final(m)) == without_prefix(store::records_of(*old(m)), prefix@),
        r == with_prefix(store::records_of(*old(m)), prefix@).len(),
{
    let ghost before = store::records_of(*m);
    let keys = store::map_keys(m);
    let ghost all = keys.deep_view();
    let mut chosen: Vec<String> = Vec::new();
    let mut i: usize = 0;
    while i < keys.len()
        invariant
            i <= keys@.len(),
            all == keys.deep_view(),
            all.no_duplicates(),
            chosen.deep_view().no_duplicates(),
            forall|k: Seq<char>| #[trigger]
                chosen.deep_view().contains(k) == (all.take(i as int).contains(k)
                    && text::has_prefix(k, prefix@)),
        decreases keys@.len() - i,
    {
        let key = keys[i].as_str();
        let ghost done = chosen.deep_view();
        let ghost seen = all.take(i as int);
        assert(all[i as int] == key@);
        assert(all.take(i + 1) =~= seen.push(key@));
        assert(!seen.contains(key@)) by {
            assert forall|j: int| 0 <= j < seen.len() implies seen[j] != key@ by {
                assert(all[j] != all[i as int]);
            }
        }
        proof {
            store::lemma_push_contains(seen, key@);
            store::lemma_push_contains(done, key@);
        }
        if text::starts_with(key, prefix) {
            text::push_text(&mut chosen, key.to_string());
            proof {
                store::lemma_push_fresh(done, key@);
            }
        }
        i = i + 1;
    }
    let ghost gone = chosen.deep_view();
    proof {
        assert(all.take(i as int) =~= all);
        assert(gone.to_set() =~= with_prefix(before, prefix@)) by {
            assert forall|k: Seq<char>| gone.to_set().contains(k) == with_prefix(
                before,
                prefix@,
            ).contains(k) by {
                assert(all.contains(k) == before.dom().contains(k));
                assert(gone.contains(k) == (all.contains(k) && text::has_prefix(k, prefix@)));
            }
        }
        gone.unique_seq_to_set();
    }
    let mut j: usize = 0;
    assert(before =~= before.remove_keys(gone.take(0).to_set()));
    while j < chosen.len()
        invariant
            j <= chosen@.len(),
            gone == chosen.deep_view(),
            store::records_of(*m) == before.remove_keys(gone.take(j as int).to_set()),
        decreases chosen@.len() - j,
    {
        let key = chosen[j].as_str();
        store::map_remove(m, key);
        proof {
            assert(gone[j as int] == key@);
            assert(gone.take(j + 1) =~= gone.take(j as int).push(key@));
            store::lemma_push_contains(gone.take(j as int), key@);
            assert(store::records_of(*m) =~= before.remove_keys(gone.take(j + 1).to_set()));
        }
        j = j + 1;
    }
    assert(gone.take(j as int) =~= gone);
    chosen.len()
}

impl RateLimiter {
    pub closed spec fn rates(&self) -> Map<Seq<char>, RecordView> {
        store::records_of(self.entries)
    }

    pub closed spec fn behaviors(&self) -> Map<Seq<char>, RecordView> {
        store::records_of(self.behavior)
    }

    pub fn new() -> (r: Self)
        ensures
            r.rates() =~= map![],
            r.behaviors() =~= map![],
    {
        RateLimiter { entries: store::map_new(), behavior: store::map_new() }
    }

    /// Counts a request and says whether it is within the limit.
    pub fn check(&mut self, key: &str, limit: u64, window_secs: u64, now: u64) -> (r: bool)
        ensures
            r == admits(rate_in(old(self).rates(), key@), now, limit, window_secs),
            final(self).rates() == old(self).rates().insert(
                key@,
                RecordView::Rate(rate_after(rate_in(old(self).rates(), key@), now, window_secs)),
            ),
            final(self).behaviors() == old(self).behaviors(),
    {
        let (next, allowed) = match store::map_get(&self.entries, key) {
            Some(Record::Rate(s)) => {
                if is_window_open(now, s.window_start, window_secs) {
                    let count: u64 = s.count.saturating_add(1);
                    (RateState { count, window_start: s.window_start }, count <= limit)
                } else {
                    (RateState { count: 1, window_start: now }, true)
                }
            },
            _ => (RateState { count: 1, window_start: now }, true),
        };
        store::map_insert(&mut self.entries, key.to_string(), Record::Rate(next));
        allowed
    }

    /// What is known of a key.
    pub(crate) fn behavior_of(&self, key: &str) -> (r: BehaviorState)
        ensures
            r.deep_view() == behavior_in(self.behaviors(), key@),
    {
        match store::map_get(&self.behavior, key) {
            Some(Record::Behavior(state)) => state,
            _ => {
                let r = BehaviorState {
                    rps: Baseline { samples: 0, mean_bits: 0, m2_bits: 0 },
                    body: Baseline { samples: 0, mean_bits: 0, m2_bits: 0 },
                    recent_hits: Vec::new(),
                    recent_object_ids: Vec::new(),
                };
                assert(r.deep_view() =~= no_behavior());
                r
            },
        }
    }

    /// Replaces what is known of a key.
    pub(crate) fn set_behavior(&mut self, key: String, state: BehaviorState)
        ensures
            final(self).behaviors() == old(self).behaviors().insert(
                key@,
                RecordView::Behavior(state.deep_view()),
            ),
            final(self).rates() == old(self).rates(),
    {
        store::map_insert(&mut self.behavior, key, Record::Behavior(state));
    }

    /// Forgets everything that is known of an address itself and says how many records that were.
    pub fn clear_source_state(&mut self, ip: &str) -> (r: usize)
        ensures
            final(self).rates() == without_prefix(old(self).rates(), source_prefix(ip@)),
            final(self).behaviors() == without_prefix(old(self).behaviors(), source_prefix(ip@)),
            r == records_total(
                with_prefix(old(self).rates(), source_prefix(ip@)).len(),
                with_prefix(old(self).behaviors(), source_prefix(ip@)).len(),
            ),
    {
        let prefix = text::cat3("ip:", ip, "|");
        let a = remove_prefixed(&mut self.entries, prefix.as_str());
        let b = remove_prefixed(&mut self.behavior, prefix.as_str());
        a.saturating_add(b)
    }

    /// Forgets all baselines and says how many there were.
    pub fn clear_behavior_state(&mut self) -> (r: usize)
        ensures
            final(self).behaviors() =~= map![],
            r == old(self).behaviors().dom().len(),
            final(self).rates() == old(self).rates(),
    {
        let n = store::map_len(&self.behavior);
        let keys = store::map_keys(&self.behavior);
        let ghost all = keys.deep_view();
        let ghost before = self.behaviors();
        let mut i: usize = 0;
        assert(before =~= before.remove_keys(all.take(0).to_set()));
        while i < keys.len()
            invariant
                i <= keys@.len(),
                all == keys.deep_view(),
                self.behaviors() == before.remove_keys(all.take(i as int).to_set()),
                self.rates() == old(self).rates(),
            decreases keys@.len() - i,
        {
            let key = keys[i].as_str();
            store::map_remove(&mut self.behavior, key);
            proof {
                assert(all[i as int] == key@);
                assert(all.take(i + 1) =~= all.take(i as int).push(key@));
                store::lemma_push_contains(all.take(i as int), key@);
                assert(self.behaviors() =~= before.remove_keys(all.take(i + 1).to_set()));
            }
            i = i + 1;
        }
        proof {
            assert(all.take(i as int) =~= all);
            assert forall|k: Seq<char>| !self.behaviors().dom().contains(k) by {
                assert(all.contains(k) == before.dom().contains(k));
            }
        }
        n
    }

    pub fn behavior_entry_count(&self) -> (r: usize)
        ensures
            r == self.behaviors().dom().len(),
    {
        store::map_len(&self.behavior)
    }

    /// The keys of which something is known, the busiest first, no more than `limit` of them. Keys
    /// that are equally busy come in no particular order.
    pub fn snapshot_behavior(&self, limit: usize) -> (r: Vec<BehaviorBaselineSnapshot>)
        ensures
            exists|all: Seq<BehaviorBaselineSnapshotView>|
                #![trigger busiest_first(all)]
                {
                    &&& busiest_first(all)
                    &&& lists_all(self.behaviors(), all)
                    &&& r.deep_view() == (if limit < all.len() {
                        all.take(limit as int)
                    } else {
                        all
                    })
                },
    {
        let keys = store::map_keys(&self.behavior);
        let ghost names = keys.deep_view();
        let ghost m = self.behaviors();
        let mut items: Vec<BehaviorBaselineSnapshot> = Vec::new();
        let mut i: usize = 0;
        assert(items.deep_view() =~= Seq::empty());
        while i < keys.len()
            invariant
                i <= keys@.len(),
                names == keys.deep_view(),
                names.no_duplicates(),
                m == self.behaviors(),
                busiest_first(items.deep_view()),
                forall|n: int|
                    0 <= n < items.deep_view().len() ==> has_behavior(
                        m,
                        (#[trigger] items.deep_view()[n]).principal_route_key,
                    ) && items.deep_view()[n] == snapshot_of(
                        m,
                        items.deep_view()[n].principal_route_key,
                    ) && names.take(i as int).contains(items.deep_view()[n].principal_route_key),
                forall|a: int, b: int|
                    0 <= a < b < items.deep_view().len() ==> (
                    #[trigger] items.deep_view()[a]).principal_route_key != (
                    #[trigger] items.deep_view()[b]).principal_route_key,
                forall|k: Seq<char>| #[trigger]
                    names.take(i as int).contains(k) && has_behavior(m, k) ==> exists|n: int|
                        0 <= n < items.deep_view().len() && (
                        #[trigger] items.deep_view()[n]).principal_route_key == k,
            decreases keys@.len() - i,
        {
            let key = keys[i].as_str();
            let ghost seen = names.take(i as int);
            let ghost done = items.deep_view();
            assert(names[i as int] == key@);
            assert(names.take(i + 1) =~= seen.push(key@));
            assert(!seen.contains(key@)) by {
                assert forall|j: int| 0 <= j < seen.len() implies seen[j] != key@ by {
                    assert(names[j] != names[i as int]);
                }
            }
            proof {
                store::lemma_push_contains(seen, key@);
            }
            if let Some(Record::Behavior(state)) = store::map_get(&self.behavior, key) {
                let item = BehaviorBaselineSnapshot {
                    principal_route_key: key.to_string(),
                    rps: state.rps,
                    body: state.body,
                    recent_hits_1m: state.recent_hits.len(),
                    distinct_object_ids_5m: count_distinct_ids(&state.recent_object_ids),
                };
                assert(item.deep_view() == snapshot_of(m, key@));
                insert_snapshot(&mut items, item);
                proof {
                    let now = items.deep_view();
                    let p = choose|p: int|
                        0 <= p <= done.len() && now == (#[trigger] done.insert(p, item.deep_view()));
                    lemma_inserted(m, done, now, p, key@, seen);
                }
            }
            i = i + 1;
        }
        let ghost all = items.deep_view();
        proof {
            assert(names.take(i as int) =~= names);
            assert forall|k: Seq<char>| #[trigger] has_behavior(m, k) implies exists|n: int|
                0 <= n < all.len() && (#[trigger] all[n]).principal_route_key == k by {
                assert(names.contains(k) == m.dom().contains(k));
                assert(names.take(i as int).contains(k));
            }
            assert(busiest_first(all) && lists_all(m, all));
        }
        if limit < items.len() {
            items.truncate(limit);
            assert(items.deep_view() =~= all.take(limit as int));
        }
        items
    }
}

/// The count of a key after some requests, one after the other.
pub open spec fn rate_after_all(times: Seq<u64>, window_secs: u64) -> Option<RateState>
    decreases times.len(),
{
    if times.len() == 0 {
        None
    } else {
        Some(
            rate_after(
                rate_after_all(times.drop_last(), window_secs),
                times.last(),
                window_secs,
            ),
        )
    }
}

/// How many of some requests, one after the other, are within the limit.
pub open spec fn admitted_count(times: Seq<u64>, limit: u64, window_secs: u64) -> nat
    decreases times.len(),
{
    if times.len() == 0 {
        0
    } else {
        let before = times.drop_last();
        admitted_count(before, limit, window_secs) + (if admits(
            rate_after_all(before, window_secs),
            times.last(),
            limit,
            window_secs,
        ) {
            1nat
        } else {
            0
        })
    }
}

/// Of the requests of one window as many are admitted as the limit says, and one at least.
pub proof fn law_window_limit(times: Seq<u64>, limit: u64, window_secs: u64)
    requires
        0 < times.len() <= u64::MAX,
        forall|i: int|
            0 < i < times.len() ==> window_open(#[trigger] times[i], times[0], window_secs),
    ensures
        rate_after_all(times, window_secs) == Some(
            RateState { count: times.len() as u64, window_start: times[0] },
        ),
        admitted_count(times, limit, window_secs) == (if limit == 0 {
            1
        } else if times.len() <= limit {
            times.len() as int
        } else {
            limit as int
        }),
    decreases times.len(),
{
    let before = times.drop_last();
    if times.len() == 1 {
        assert(rate_after_all(before, window_secs) is None);
        assert(admitted_count(before, limit, window_secs) == 0);
    } else {
        assert forall|i: int| 0 < i < before.len() implies window_open(
            #[trigger] before[i],
            before[0],
            window_secs,
        ) by {
            assert(before[i] == times[i]);
        }
        law_window_limit(before, limit, window_secs);
        assert(window_open(times[times.len() - 1], times[0], window_secs));
    }
}

/// A request under one key does not count under any other.
pub proof fn law_other_keys_untouched(
    rates: Map<Seq<char>, RecordView>,
    key: Seq<char>,
    other: Seq<char>,
    now: u64,
    window_secs: u64,
)
    requires
        key != other,
    ensures
        rate_in(
            rates.insert(key, RecordView::Rate(rate_after(rate_in(rates, key), now, window_secs))),
            other,
        ) == rate_in(rates, other),
{
}

/// What a list holds once the item of a new key is in its place.
proof fn lemma_inserted(
    m: Map<Seq<char>, RecordView>,
    done: Seq<BehaviorBaselineSnapshotView>,
    now: Seq<BehaviorBaselineSnapshotView>,
    p: int,
    key: Seq<char>,
    seen: Seq<Seq<char>>,
)
    requires
        0 <= p <= done.len(),
        now == done.insert(p, snapshot_of(m, key)),
        has_behavior(m, key),
        !seen.contains(key),
        forall|n: int|
            0 <= n < done.len() ==> has_behavior(m, (#[trigger] done[n]).principal_route_key)
                && done[n] == snapshot_of(m, done[n].principal_route_key) && seen.contains(
                done[n].principal_route_key,
            ),
        forall|a: int, b: int|
            0 <= a < b < done.len() ==> (#[trigger] done[a]).principal_route_key != (
            #[trigger] done[b]).principal_route_key,
        forall|k: Seq<char>| #[trigger]
            seen.contains(k) && has_behavior(m, k) ==> exists|n: int|
                0 <= n < done.len() && (#[trigger] done[n]).principal_route_key == k,
    ensures
        forall|n: int|
            0 <= n < now.len() ==> has_behavior(m, (#[trigger] now[n]).principal_route_key)
                && now[n] == snapshot_of(m, now[n].principal_route_key) && seen.push(key).contains(
                now[n].principal_route_key,
            ),
        forall|a: int, b: int|
            0 <= a < b < now.len() ==> (#[trigger] now[a]).principal_route_key != (
            #[trigger] now[b]).principal_route_key,
        forall|k: Seq<char>| #[trigger]
            seen.push(key).contains(k) && has_behavior(m, k) ==> exists|n: int|
                0 <= n < now.len() && (#[trigger] now[n]).principal_route_key == k,
{
    store::lemma_push_contains(seen, key);
    assert(now[p] == snapshot_of(m, key));
    assert forall|n: int| 0 <= n < now.len() implies has_behavior(
        m,
        (#[trigger] now[n]).principal_route_key,
    ) && now[n] == snapshot_of(m, now[n].principal_route_key) && seen.push(key).contains(
        now[n].principal_route_key,
    ) by {
        if n < p {
            assert(now[n] == done[n]);
        } else if n > p {
            assert(now[n] == done[n - 1]);
        }
    }
    assert forall|a: int, b: int| 0 <= a < b < now.len() implies (
    #[trigger] now[a]).principal_route_key != (#[trigger] now[b]).principal_route_key by {
        let x = if a < p { a } else { a - 1 };
        let y = if b < p { b } else { b - 1 };
        if a == p {
            assert(now[b] == done[y]);
            assert(seen.contains(done[y].principal_route_key));
        } else if b == p {
            assert(now[a] == done[x]);
            assert(seen.contains(done[x].principal_route_key));
        } else {
            assert(now[a] == done[x]);
            assert(now[b] == done[y]);
        }
    }
    assert forall|k: Seq<char>| #[trigger]
        seen.push(key).contains(k) && has_behavior(m, k) implies exists|n: int|
        0 <= n < now.len() && (#[trigger] now[n]).principal_route_key == k by {
        if k == key {
            assert(now[p].principal_route_key == k);
        } else {
            assert(seen.contains(k));
            let n = choose|n: int|
                0 <= n < done.len() && (#[trigger] done[n]).principal_route_key == k;
            if n < p {
                assert(now[n] == done[n]);
            } else {
                assert(now[n + 1] == done[n]);
            }
        }
    }
}

} // verus!
