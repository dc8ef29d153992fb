//! Temporary blocks, source reputations and what a decision does to them.

use crate::net;
use crate::pairs;
use crate::rate_limit;
use crate::rate_limit::RateLimiter;
use crate::store;
use crate::store::{
    ActiveMitigation, ActiveMitigationView, Record, RecordView, SourceReputationEntry,
};
use crate::text;
use crate::types::{
    DecisionOutcome, DecisionOutcomeView, Finding, MitigationAction, OperatorActionCommand,
    OperatorActionCommandView, OperatorActionKind, Recommendation, RecommendationView,
    SecurityDecision, Severity, SourceReputation, SourceReputationView, Timestamp,
};
use dashmap::DashMap;
use vstd::prelude::*;

verus! {

/// The latest point in time that can be represented: the last nanosecond of the year 262142.
pub const LATEST: i128 = 8_210_266_876_799_999_999_999;

/// The earliest point in time that can be represented: the first nanosecond of the year -262143.
pub const EARLIEST: i128 = -8_334_601_228_800_000_000_000;

/// Nanoseconds in a second.
pub const SECOND: i128 = 1_000_000_000;

/// Blocked sources and the reputation of sources, by address.
pub struct TemporaryMitigationStore {
    blocks: DashMap<String, Record>,
    reputation: DashMap<String, Record>,
}

/// The block of a source, if there is one.
pub open spec fn block_in(m: Map<Seq<char>, RecordView>, ip: Seq<char>) -> Option<
    ActiveMitigationView,
> {
    if m.dom().contains(ip) {
        match m[ip] {
            RecordView::Block(b) => Some(b),
            _ => None,
        }
    } else {
        None
    }
}

/// Whether a source has a block that is over.
pub open spec fn expired_in(m: Map<Seq<char>, RecordView>, ip: Seq<char>, now: Timestamp) -> bool {
    match block_in(m, ip) {
        Some(b) => b.expires_at <= now,
        None => false,
    }
}

/// Whether a source has a block that is not over.
pub open spec fn active_in(m: Map<Seq<char>, RecordView>, ip: Seq<char>, now: Timestamp) -> bool {
    match block_in(m, ip) {
        Some(b) => b.expires_at > now,
        None => false,
    }
}

/// The reputation of a source, if it has one.
pub open spec fn reputation_in(m: Map<Seq<char>, RecordView>, ip: Seq<char>) -> Option<
    SourceReputationEntry,
> {
    if m.dom().contains(ip) {
        match m[ip] {
            RecordView::Reputation(e) => Some(e),
            _ => None,
        }
    } else {
        None
    }
}

/// The suspicious score of a source, zero where nothing is known of it.
pub open spec fn score_in(m: Map<Seq<char>, RecordView>, ip: Seq<char>) -> i32 {
    match reputation_in(m, ip) {
        Some(e) => e.suspicious_score,
        None => 0,
    }
}

/// A sum held to the range of `i32`.
pub open spec fn saturated(n: int) -> i32 {
    if n > i32::MAX {
        i32::MAX
    } else if n < i32::MIN {
        i32::MIN
    } else {
        n as i32
    }
}

fn saturating_sum(a: i32, b: i32) -> (r: i32)
    ensures
        r == saturated(a + b),
{
    let sum: i64 = a as i64 + b as i64;
    if sum > i32::MAX as i64 {
        i32::MAX
    } else if sum < i32::MIN as i64 {
        i32::MIN
    } else {
        sum as i32
    }
}

/// The block that a source gets.
pub open spec fn block_of(
    ip: Seq<char>,
    seconds: u64,
    reason: Seq<char>,
    action_id: Seq<char>,
    now: Timestamp,
) -> ActiveMitigationView {
    ActiveMitigationView {
        action_id,
        source_ip: ip,
        action: MitigationAction::BlockSourceIpTemporary { ttl_secs: seconds },
        created_at: now,
        expires_at: (now + seconds * SECOND) as i128,
        reason,
    }
}

impl TemporaryMitigationStore {
    pub closed spec fn blocks(&self) -> Map<Seq<char>, RecordView> {
        store::records_of(self.blocks)
    }

    pub closed spec fn reputations(&self) -> Map<Seq<char>, RecordView> {
        store::records_of(self.reputation)
    }

    pub fn new() -> (r: Self)
        ensures
            r.blocks() =~= map![],
            r.reputations() =~= map![],
    {
        TemporaryMitigationStore { blocks: store::map_new(), reputation: store::map_new() }
    }

    /// The block of a source while it lasts. A block that is over is removed.
    pub fn get_active_block(&mut self, ip: &str, now: Timestamp) -> (r: Option<ActiveMitigation>)
        ensures
            r.deep_view() == (if active_in(old(self).blocks(), ip@, now) {
                block_in(old(self).blocks(), ip@)
            } else {
                None
            }),
            final(self).blocks() == (if expired_in(old(self).blocks(), ip@, now) {
                old(self).blocks().remove(ip@)
            } else {
                old(self).blocks()
            }),
            final(self).reputations() == old(self).reputations(),
    {
        match store::map_get(&self.blocks, ip) {
            Some(Record::Block(b)) => {
                if b.expires_at <= now {
                    store::map_remove(&mut self.blocks, ip);
                    None
                } else {
                    Some(b)
                }
            },
            _ => None,
        }
    }

    /// Blocks a source for some seconds from now, in place of any block that it has.
    pub fn block_ip_for(
        &mut self,
        ip: &str,
        seconds: u64,
        reason: String,
        action_id: String,
        now: Timestamp,
    ) -> (r: ActiveMitigation)
        requires
            EARLIEST <= now,
            now + seconds * SECOND <= LATEST,
        ensures
            r.deep_view() == block_of(ip@, seconds, reason@, action_id@, now),
            final(self).blocks() == old(self).blocks().insert(
                ip@,
                RecordView::Block(r.deep_view()),
            ),
            final(self).reputations() == old(self).reputations(),
    {
        let mitigation = ActiveMitigation {
            action_id,
            source_ip: ip.to_string(),
            action: MitigationAction::BlockSourceIpTemporary { ttl_secs: seconds },
            created_at: now,
            expires_at: now + seconds as i128 * SECOND,
            reason,
        };
        store::map_insert(&mut self.blocks, ip.to_string(), Record::Block(mitigation.clone()));
        mitigation
    }

    /// Removes the blocks that are over and gives their sources, in no particular order.
    pub fn cleanup_expired(&mut self, now: Timestamp) -> (r: Vec<String>)
        ensures
            r.deep_view().no_duplicates(),
            forall|ip: Seq<char>| #[trigger]
                r.deep_view().contains(ip) == expired_in(old(self).blocks(), ip, now),
            final(self).blocks() == old(self).blocks().remove_keys(r.deep_view().to_set()),
            final(self).reputations() == old(self).reputations(),
    {
        let ghost before = self.blocks();
        let keys = store::map_keys(&self.blocks);
        let ghost all = keys.deep_view();
        let mut expired: Vec<String> = Vec::new();
        let mut i: usize = 0;
        while i < keys.len()
            invariant
                i <= keys@.len(),
                all == keys.deep_view(),
                all.no_duplicates(),
                self.blocks() == before,
                self.reputations() == old(self).reputations(),
                expired.deep_view().no_duplicates(),
                forall|ip: Seq<char>| #[trigger]
                    expired.deep_view().contains(ip) == (all.take(i as int).contains(ip)
                        && expired_in(before, ip, now)),
            decreases keys@.len() - i,
        {
            let key = keys[i].as_str();
            let ghost done = expired.deep_view();
            let ghost seen = all.take(i as int);
            assert(all[i as int] == key@);
            assert(all.take(i + 1) =~= seen.push(key@));
            assert(!seen.contains(key@)) by {
                assert forall|j: int| 0 <= j < seen.len() implies seen[j] != key@ by {
                    assert(all[j] != all[i as int]);
                }
            }
            let over = match store::map_get(&self.blocks, key) {
                Some(Record::Block(b)) => b.expires_at <= now,
                _ => false,
            };
            assert(over == expired_in(before, key@, now));
            if over {
                text::push_text(&mut expired, key.to_string());
                proof {
                    store::lemma_push_fresh(done, key@);
                }
            }
            proof {
                store::lemma_push_contains(seen, key@);
                store::lemma_push_contains(done, key@);
            }
            i = i + 1;
        }
        proof {
            assert(all.take(i as int) =~= all);
            assert forall|ip: Seq<char>| #[trigger]
                expired.deep_view().contains(ip) == expired_in(before, ip, now) by {
                assert(all.contains(ip) == before.dom().contains(ip));
            }
        }
        let ghost gone = expired.deep_view();
        let mut j: usize = 0;
        assert(before =~= before.remove_keys(gone.take(0).to_set()));
        while j < expired.len()
            invariant
                j <= expired@.len(),
                gone == expired.deep_view(),
                self.blocks() == before.remove_keys(gone.take(j as int).to_set()),
                self.reputations() == old(self).reputations(),
            decreases expired@.len() - j,
        {
            let key = expired[j].as_str();
            store::map_remove(&mut self.blocks, key);
            proof {
                assert(gone[j as int] == key@);
                assert(gone.take(j + 1) =~= gone.take(j as int).push(key@));
                store::lemma_push_contains(gone.take(j as int), key@);
                assert(self.blocks() =~= before.remove_keys(gone.take(j + 1).to_set()));
            }
            j = j + 1;
        }
        assert(gone.take(j as int) =~= gone);
        expired
    }

    pub fn active_block_count(&self) -> (r: usize)
        ensures
            r == self.blocks().dom().len(),
    {
        store::map_len(&self.blocks)
    }

    /// The blocks that are not over, in no particular order.
    pub fn list_active_blocks(&self, now: Timestamp) -> (r: Vec<ActiveMitigation>)
        ensures
            exists|keys: Seq<Seq<char>>|
                {
                    &&& #[trigger] keys.no_duplicates()
                    &&& forall|ip: Seq<char>| #[trigger]
                        keys.contains(ip) == active_in(self.blocks(), ip, now)
                    &&& r.deep_view() == keys.map_values(
                        |ip: Seq<char>| block_in(self.blocks(), ip)->0,
                    )
                },
    {
        let keys = store::map_keys(&self.blocks);
        let ghost all = keys.deep_view();
        let ghost pick = |ip: Seq<char>| block_in(self.blocks(), ip)->0;
        let ghost mut picked: Seq<Seq<char>> = Seq::empty();
        let mut out: Vec<ActiveMitigation> = Vec::new();
        let mut i: usize = 0;
        assert(out.deep_view() =~= picked.map_values(pick));
        while i < keys.len()
            invariant
                i <= keys@.len(),
                all == keys.deep_view(),
                all.no_duplicates(),
                pick == (|ip: Seq<char>| block_in(self.blocks(), ip)->0),
                picked.no_duplicates(),
                forall|ip: Seq<char>| #[trigger]
                    picked.contains(ip) == (all.take(i as int).contains(ip) && active_in(
                        self.blocks(),
                        ip,
                        now,
                    )),
                out.deep_view() == picked.map_values(pick),
            decreases keys@.len() - i,
        {
            let key = keys[i].as_str();
            let ghost seen = all.take(i as int);
            let ghost done = picked;
            assert(all[i as int] == key@);
            assert(all.take(i + 1) =~= seen.push(key@));
            assert(!seen.contains(key@)) by {
                assert forall|j: int| 0 <= j < seen.len() implies seen[j] != key@ by {
                    assert(all[j] != all[i as int]);
                }
            }
            proof {
                store::lemma_push_contains(seen, key@);
                store::lemma_push_contains(done, key@);
            }
            if let Some(Record::Block(b)) = store::map_get(&self.blocks, key) {
                if b.expires_at > now {
                    let ghost before = out.deep_view();
                    let ghost view = b.deep_view();
                    out.push(b);
                    proof {
                        store::lemma_push_fresh(done, key@);
                        picked = done.push(key@);
                        assert(out.deep_view() =~= before.push(view));
                        assert(out.deep_view() =~= picked.map_values(pick));
                    }
                }
            }
            i = i + 1;
        }
        proof {
            assert(all.take(i as int) =~= all);
            assert forall|ip: Seq<char>| #[trigger]
                picked.contains(ip) == active_in(self.blocks(), ip, now) by {
                assert(all.contains(ip) == self.blocks().dom().contains(ip));
            }
        }
        out
    }

    pub fn unblock_ip(&mut self, ip: &str) -> (r: bool)
        ensures
            r == old(self).blocks().dom().contains(ip@),
            final(self).blocks() == old(self).blocks().remove(ip@),
            final(self).reputations() == old(self).reputations(),
    {
        store::map_remove(&mut self.blocks, ip)
    }

    /// Adds to the suspicious score of a source and marks it as seen now.
    pub fn add_suspicious_score(&mut self, ip: &str, delta: i32, now: Timestamp) -> (r:
        SourceReputation)
        ensures
            r.deep_view() == (SourceReputationView {
                source_ip: ip@,
                suspicious_score: saturated(score_in(old(self).reputations(), ip@) + delta),
                last_seen_at: now,
            }),
            final(self).reputations() == old(self).reputations().insert(
                ip@,
                RecordView::Reputation(
                    SourceReputationEntry {
                        suspicious_score: r.suspicious_score,
                        last_seen_at: now,
                    },
                ),
            ),
            final(self).blocks() == old(self).blocks(),
    {
        let before: i32 = match store::map_get(&self.reputation, ip) {
            Some(Record::Reputation(e)) => e.suspicious_score,
            _ => 0,
        };
        let score = saturating_sum(before, delta);
        let entry = SourceReputationEntry { suspicious_score: score, last_seen_at: now };
        store::map_insert(&mut self.reputation, ip.to_string(), Record::Reputation(entry));
        SourceReputation { source_ip: ip.to_string(), suspicious_score: score, last_seen_at: now }
    }

    /// The reputation of a source; one that nothing is known of has score zero, as of now.
    pub fn get_reputation(&self, ip: &str, now: Timestamp) -> (r: SourceReputation)
        ensures
            r.deep_view() == (SourceReputationView {
                source_ip: ip@,
                suspicious_score: score_in(self.reputations(), ip@),
                last_seen_at: match reputation_in(self.reputations(), ip@) {
                    Some(e) => e.last_seen_at,
                    None => now,
                },
            }),
    {
        match store::map_get(&self.reputation, ip) {
            Some(Record::Reputation(e)) => SourceReputation {
                source_ip: ip.to_string(),
                suspicious_score: e.suspicious_score,
                last_seen_at: e.last_seen_at,
            },
            _ => SourceReputation {
                source_ip: ip.to_string(),
                suspicious_score: 0,
                last_seen_at: now,
            },
        }
    }

    /// All reputations, in no particular order.
    pub fn list_reputations(&self) -> (r: Vec<SourceReputation>)
        ensures
            exists|keys: Seq<Seq<char>>|
                {
                    &&& #[trigger] keys.no_duplicates()
                    &&& forall|ip: Seq<char>| #[trigger]
                        keys.contains(ip) == (reputation_in(self.reputations(), ip) is Some)
                    &&& r.deep_view() == keys.map_values(
                        |ip: Seq<char>| listed_reputation(self.reputations(), ip),
                    )
                },
    {
        let keys = store::map_keys(&self.reputation);
        let ghost all = keys.deep_view();
        let ghost pick = |ip: Seq<char>| listed_reputation(self.reputations(), ip);
        let ghost mut picked: Seq<Seq<char>> = Seq::empty();
        let mut out: Vec<SourceReputation> = Vec::new();
        let mut i: usize = 0;
        assert(out.deep_view() =~= picked.map_values(pick));
        while i < keys.len()
            invariant
                i <= keys@.len(),
                all == keys.deep_view(),
                all.no_duplicates(),
                pick == (|ip: Seq<char>| listed_reputation(self.reputations(), ip)),
                picked.no_duplicates(),
                forall|ip: Seq<char>| #[trigger]
                    picked.contains(ip) == (all.take(i as int).contains(ip) && reputation_in(
                        self.reputations(),
                        ip,
                    ) is Some),
                out.deep_view() == picked.map_values(pick),
            decreases keys@.len() - i,
        {
            let key = keys[i].as_str();
            let ghost seen = all.take(i as int);
            let ghost done = picked;
            assert(all[i as int] == key@);
            assert(all.take(i + 1) =~= seen.push(key@));
            assert(!seen.contains(key@)) by {
                assert forall|j: int| 0 <= j < seen.len() implies seen[j] != key@ by {
                    assert(all[j] != all[i as int]);
                }
            }
            proof {
                store::lemma_push_contains(seen, key@);
                store::lemma_push_contains(done, key@);
            }
            if let Some(Record::Reputation(e)) = store::map_get(&self.reputation, key) {
                let ghost before = out.deep_view();
                let item = SourceReputation {
                    source_ip: key.to_string(),
                    suspicious_score: e.suspicious_score,
                    last_seen_at: e.last_seen_at,
                };
                let ghost view = item.deep_view();
                out.push(item);
                proof {
                    store::lemma_push_fresh(done, key@);
                    picked = done.push(key@);
                    assert(out.deep_view() =~= before.push(view));
                    assert(out.deep_view() =~= picked.map_values(pick));
                }
            }
            i = i + 1;
        }
        proof {
            assert(all.take(i as int) =~= all);
            assert forall|ip: Seq<char>| #[trigger]
                picked.contains(ip) == (reputation_in(self.reputations(), ip) is Some) by {
                assert(all.contains(ip) == self.reputations().dom().contains(ip));
            }
        }
        out
    }

    /// Puts a block that was kept elsewhere back in place.
    pub fn insert_block_hydrated(&mut self, mitigation: ActiveMitigation)
        ensures
            final(self).blocks() == old(self).blocks().insert(
                mitigation.source_ip@,
                RecordView::Block(mitigation.deep_view()),
            ),
            final(self).reputations() == old(self).reputations(),
    {
        let key = mitigation.source_ip.clone();
        store::map_insert(&mut self.blocks, key, Record::Block(mitigation));
    }

    /// Puts a reputation that was kept elsewhere back in place, where its source is an address.
    pub fn insert_reputation_hydrated(&mut self, reputation: SourceReputation)
        ensures
            final(self).reputations() == reputation_hydrated(
                old(self).reputations(),
                reputation.deep_view(),
            ),
            final(self).blocks() == old(self).blocks(),
    {
        if let Some(ip) = net::canonical_ip(reputation.source_ip.as_str()) {
            let entry = SourceReputationEntry {
                suspicious_score: reputation.suspicious_score,
                last_seen_at: reputation.last_seen_at,
            };
            store::map_insert(&mut self.reputation, ip, Record::Reputation(entry));
        }
    }

    pub fn reset_reputation(&mut self, ip: &str) -> (r: bool)
        ensures
            r == old(self).reputations().dom().contains(ip@),
            final(self).reputations() == old(self).reputations().remove(ip@),
            final(self).blocks() == old(self).blocks(),
    {
        store::map_remove(&mut self.reputation, ip)
    }
}

/// The reputations with one more that was kept elsewhere, where its source is an address.
pub open spec fn reputation_hydrated(
    m: Map<Seq<char>, RecordView>,
    r: SourceReputationView,
) -> Map<Seq<char>, RecordView> {
    match net::canonical_ip_of(r.source_ip) {
        Some(ip) => m.insert(
            ip,
            RecordView::Reputation(
                SourceReputationEntry {
                    suspicious_score: r.suspicious_score,
                    last_seen_at: r.last_seen_at,
                },
            ),
        ),
        None => m,
    }
}

/// The reputations with some that were kept elsewhere.
pub open spec fn reputations_hydrated(
    m: Map<Seq<char>, RecordView>,
    s: Seq<SourceReputationView>,
) -> Map<Seq<char>, RecordView>
    decreases s.len(),
{
    if s.len() == 0 {
        m
    } else {
        reputation_hydrated(reputations_hydrated(m, s.drop_last()), s.last())
    }
}

/// The blocks with some that were kept elsewhere and are not over.
pub open spec fn blocks_hydrated(
    m: Map<Seq<char>, RecordView>,
    s: Seq<ActiveMitigationView>,
    now: Timestamp,
) -> Map<Seq<char>, RecordView>
    decreases s.len(),
{
    if s.len() == 0 {
        m
    } else {
        let before = blocks_hydrated(m, s.drop_last(), now);
        if s.last().expires_at > now {
            before.insert(s.last().source_ip, RecordView::Block(s.last()))
        } else {
            before
        }
    }
}

/// Puts blocks and reputations that were kept elsewhere back in place. Blocks that are over stay
/// out.
pub fn hydrate_state(
    state: &mut TemporaryMitigationStore,
    mitigations: &Vec<ActiveMitigation>,
    reputations: &Vec<SourceReputation>,
    now: Timestamp,
)
    ensures
        final(state).blocks() == blocks_hydrated(
            old(state).blocks(),
            mitigations.deep_view(),
            now,
        ),
        final(state).reputations() == reputations_hydrated(
            old(state).reputations(),
            reputations.deep_view(),
        ),
{
    let ghost m0 = state.blocks();
    let ghost r0 = state.reputations();
    let ghost ms = mitigations.deep_view();
    let ghost rs = reputations.deep_view();
    let mut i: usize = 0;
    assert(ms.take(0) =~= Seq::empty());
    assert(rs.take(0) =~= Seq::empty());
    while i < mitigations.len()
        invariant
            i <= mitigations@.len(),
            ms == mitigations.deep_view(),
            state.blocks() == blocks_hydrated(m0, ms.take(i as int), now),
            state.reputations() == r0,
        decreases mitigations@.len() - i,
    {
        assert(ms.take(i + 1).drop_last() =~= ms.take(i as int));
        assert(ms.take(i + 1).last() == mitigations@[i as int].deep_view());
        if mitigations[i].expires_at > now {
            state.insert_block_hydrated(mitigations[i].clone());
        }
        i = i + 1;
    }
    assert(ms.take(i as int) =~= ms);
    let mut j: usize = 0;
    while j < reputations.len()
        invariant
            j <= reputations@.len(),
            rs == reputations.deep_view(),
            state.blocks() == blocks_hydrated(m0, ms, now),
            state.reputations() == reputations_hydrated(r0, rs.take(j as int)),
        decreases reputations@.len() - j,
    {
        assert(rs.take(j + 1).drop_last() =~= rs.take(j as int));
        assert(rs.take(j + 1).last() == reputations@[j as int].deep_view());
        state.insert_reputation_hydrated(reputations[j].clone());
        j = j + 1;
    }
    assert(rs.take(j as int) =~= rs);
}

/// Forgets everything about a source: its block, its reputation, and what the limiter counted for
/// its address. The result says whether there was a block and whether there was a reputation.
pub fn clear_source_state(
    state: &mut TemporaryMitigationStore,
    limiter: &mut RateLimiter,
    ip: &str,
) -> (r: (bool, bool))
    ensures
        r.0 == old(state).blocks().dom().contains(ip@),
        r.1 == old(state).reputations().dom().contains(ip@),
        final(state).blocks() == old(state).blocks().remove(ip@),
        final(state).reputations() == old(state).reputations().remove(ip@),
        final(limiter).rates() == rate_limit::without_prefix(
            old(limiter).rates(),
            rate_limit::source_prefix(ip@),
        ),
        final(limiter).behaviors() == rate_limit::without_prefix(
            old(limiter).behaviors(),
            rate_limit::source_prefix(ip@),
        ),
{
    let block_removed = state.unblock_ip(ip);
    let reputation_removed = state.reset_reputation(ip);
    limiter.clear_source_state(ip);
    (block_removed, reputation_removed)
}

/// A source of which everything was forgotten starts anew: its next request is within any limit.
pub proof fn law_cleared_source_starts_anew(
    rates: Map<Seq<char>, RecordView>,
    ip: Seq<char>,
    bucket: Seq<char>,
    now: u64,
    limit: u64,
    window_secs: u64,
)
    ensures
        rate_limit::admits(
            rate_limit::rate_in(
                rate_limit::without_prefix(rates, rate_limit::source_prefix(ip)),
                "ip:"@ + ip + "|"@ + bucket,
            ),
            now,
            limit,
            window_secs,
        ),
{
    let prefix = rate_limit::source_prefix(ip);
    let key = "ip:"@ + ip + "|"@ + bucket;
    assert(key.take(prefix.len() as int) =~= prefix);
    assert(text::has_prefix(key, prefix));
}

pub open spec fn listed_reputation(
    m: Map<Seq<char>, RecordView>,
    ip: Seq<char>,
) -> SourceReputationView {
    SourceReputationView {
        source_ip: ip,
        suspicious_score: reputation_in(m, ip)->0.suspicious_score,
        last_seen_at: reputation_in(m, ip)->0.last_seen_at,
    }
}

/// What a severity adds to the suspicious score of a source.
pub open spec fn reputation_points(severity: Severity) -> int {
    match severity {
        Severity::Low => 1,
        Severity::Medium => 2,
        Severity::High => 4,
        Severity::Critical => 6,
    }
}

/// What some findings add to the suspicious score of a source.
pub open spec fn reputation_delta_of(findings: Seq<Finding>) -> int
    decreases findings.len(),
{
    if findings.len() == 0 {
        0
    } else {
        reputation_delta_of(findings.drop_last()) + reputation_points(findings.last().severity)
    }
}

proof fn lemma_delta_range(findings: Seq<Finding>)
    ensures
        0 <= reputation_delta_of(findings),
        findings.len() > 0 ==> reputation_delta_of(findings) > 0,
    decreases findings.len(),
{
    if findings.len() > 0 {
        lemma_delta_range(findings.drop_last());
    }
}

pub fn calculate_reputation_delta(decision: &SecurityDecision) -> (r: i32)
    ensures
        r == saturated(reputation_delta_of(decision.findings@)),
        (r > 0) == (decision.findings@.len() > 0),
{
    let mut score: i32 = 0;
    let mut i: usize = 0;
    while i < decision.findings.len()
        invariant
            i <= decision.findings@.len(),
            score == saturated(reputation_delta_of(decision.findings@.take(i as int))),
            reputation_delta_of(decision.findings@.take(i as int)) >= 0,
        decreases decision.findings@.len() - i,
    {
        let points: i32 = match decision.findings[i].severity {
            Severity::Low => 1,
            Severity::Medium => 2,
            Severity::High => 4,
            Severity::Critical => 6,
        };
        assert(decision.findings@.take(i + 1).drop_last() =~= decision.findings@.take(i as int));
        score = saturating_sum(score, points);
        i = i + 1;
    }
    proof {
        assert(decision.findings@.take(i as int) =~= decision.findings@);
        lemma_delta_range(decision.findings@);
    }
    score
}

/// The reputation entry of a source after some findings, where there are any.
pub open spec fn reputation_after(
    m: Map<Seq<char>, RecordView>,
    ip: Seq<char>,
    findings: Seq<Finding>,
    now: Timestamp,
) -> SourceReputationEntry {
    SourceReputationEntry {
        suspicious_score: saturated(
            score_in(m, ip) + saturated(reputation_delta_of(findings)),
        ),
        last_seen_at: now,
    }
}

/// The reputations after a decision on a request of a source.
pub open spec fn reputations_after(
    m: Map<Seq<char>, RecordView>,
    ip: Seq<char>,
    findings: Seq<Finding>,
    now: Timestamp,
) -> Map<Seq<char>, RecordView> {
    if findings.len() > 0 {
        m.insert(ip, RecordView::Reputation(reputation_after(m, ip, findings, now)))
    } else {
        m
    }
}

/// The reputation to be kept after a decision, where there is one to keep.
pub open spec fn reputation_kept(
    m: Map<Seq<char>, RecordView>,
    ip: Seq<char>,
    findings: Seq<Finding>,
    now: Timestamp,
) -> Option<SourceReputationView> {
    if findings.len() > 0 {
        Some(
            SourceReputationView {
                source_ip: ip,
                suspicious_score: reputation_after(m, ip, findings, now).suspicious_score,
                last_seen_at: now,
            },
        )
    } else {
        None
    }
}

/// What a decision that lets the request through does to the source: its score grows with the
/// findings. The result is the reputation to be kept.
pub fn apply_non_blocking_effects(
    state: &mut TemporaryMitigationStore,
    source_ip: &str,
    decision: &SecurityDecision,
    now: Timestamp,
) -> (r: Option<SourceReputation>)
    ensures
        r.deep_view() == reputation_kept(
            old(state).reputations(),
            source_ip@,
            decision.findings@,
            now,
        ),
        final(state).reputations() == reputations_after(
            old(state).reputations(),
            source_ip@,
            decision.findings@,
            now,
        ),
        final(state).blocks() == old(state).blocks(),
{
    let delta = calculate_reputation_delta(decision);
    if delta > 0 {
        Some(state.add_suspicious_score(source_ip, delta, now))
    } else {
        None
    }
}

/// How many temporary blocks are among some actions.
pub open spec fn block_count_of(actions: Seq<MitigationAction>) -> nat
    decreases actions.len(),
{
    if actions.len() == 0 {
        0
    } else {
        block_count_of(actions.drop_last()) + if actions.last() is BlockSourceIpTemporary {
            1nat
        } else {
            0
        }
    }
}

pub fn block_count(actions: &Vec<MitigationAction>) -> (r: usize)
    ensures
        r == block_count_of(actions@),
        r <= actions@.len(),
{
    let mut n: usize = 0;
    let mut i: usize = 0;
    while i < actions.len()
        invariant
            i <= actions@.len(),
            n == block_count_of(actions@.take(i as int)),
            n <= i,
        decreases actions@.len() - i,
    {
        assert(actions@.take(i + 1).drop_last() =~= actions@.take(i as int));
        if let MitigationAction::BlockSourceIpTemporary { .. } = actions[i] {
            n = n + 1;
        }
        i = i + 1;
    }
    assert(actions@.take(i as int) =~= actions@);
    n
}

/// The blocks that some actions ask for, with the given identifiers, in order.
pub open spec fn blocks_for(
    actions: Seq<MitigationAction>,
    ip: Seq<char>,
    reason: Seq<char>,
    action_ids: Seq<Seq<char>>,
    now: Timestamp,
) -> Seq<ActiveMitigationView>
    decreases actions.len(),
{
    if actions.len() == 0 {
        Seq::empty()
    } else {
        let before = blocks_for(actions.drop_last(), ip, reason, action_ids, now);
        match actions.last() {
            MitigationAction::BlockSourceIpTemporary { ttl_secs } => before.push(
                block_of(ip, ttl_secs, reason, action_ids[before.len() as int], now),
            ),
            _ => before,
        }
    }
}

/// Whether all blocks that some actions ask for end at a time that can be represented.
pub open spec fn blocks_representable(actions: Seq<MitigationAction>, now: Timestamp) -> bool {
    &&& EARLIEST <= now
    &&& forall|i: int|
        0 <= i < actions.len() ==> match #[trigger] actions[i] {
            MitigationAction::BlockSourceIpTemporary { ttl_secs } => now + ttl_secs * SECOND
                <= LATEST,
            _ => true,
        }
}

/// Whether all blocks that some actions ask for end at a time that can be represented.
pub fn blocks_fit(actions: &Vec<MitigationAction>, now: Timestamp) -> (r: bool)
    ensures
        r == blocks_representable(actions@, now),
{
    if now < EARLIEST {
        return false;
    }
    let mut i: usize = 0;
    while i < actions.len()
        invariant
            i <= actions@.len(),
            EARLIEST <= now,
            forall|j: int|
                0 <= j < i ==> match #[trigger] actions@[j] {
                    MitigationAction::BlockSourceIpTemporary { ttl_secs } => now + ttl_secs * SECOND
                        <= LATEST,
                    _ => true,
                },
        decreases actions@.len() - i,
    {
        if let MitigationAction::BlockSourceIpTemporary { ttl_secs } = actions[i] {
            let ttl: i128 = ttl_secs as i128 * SECOND;
            if now > LATEST || ttl > LATEST - now {
                assert(actions@[i as int] == MitigationAction::BlockSourceIpTemporary { ttl_secs });
                return false;
            }
        }
        i = i + 1;
    }
    true
}

/// The status and the body with which a decision is answered. A code that is no HTTP status is
/// answered as forbidden.
pub open spec fn answer_of(outcome: DecisionOutcomeView) -> (u16, Seq<char>) {
    match outcome {
        DecisionOutcomeView::Reject { status_code, message } => (
            if 100 <= status_code < 1000 {
                status_code
            } else {
                403
            },
            message,
        ),
        DecisionOutcomeView::Allow => (200, "allowed"@),
    }
}

/// What a blocking decision leads to.
#[derive(Debug)]
pub struct BlockingOutcome {
    pub reputation: Option<SourceReputation>,
    pub blocks: Vec<ActiveMitigation>,
    pub status_code: u16,
    pub body: String,
}

/// The blocks after the given blocks were put in place, one after another.
pub open spec fn blocks_after(
    m: Map<Seq<char>, RecordView>,
    ip: Seq<char>,
    placed: Seq<ActiveMitigationView>,
) -> Map<Seq<char>, RecordView> {
    if placed.len() == 0 {
        m
    } else {
        m.insert(ip, RecordView::Block(placed.last()))
    }
}

/// Carries out a blocking decision: the source's score grows with the findings, and the source
/// gets each block that the decision asks for, the last of which stays. `action_ids` holds an
/// identifier for each block.
pub fn finalize_blocking_decision(
    state: &mut TemporaryMitigationStore,
    source_ip: &str,
    decision: &SecurityDecision,
    action_ids: &Vec<String>,
    now: Timestamp,
) -> (r: BlockingOutcome)
    requires
        block_count_of(decision.actions@) <= action_ids@.len(),
        blocks_representable(decision.actions@, now),
    ensures
        r.reputation.deep_view() == reputation_kept(
            old(state).reputations(),
            source_ip@,
            decision.findings@,
            now,
        ),
        final(state).reputations() == reputations_after(
            old(state).reputations(),
            source_ip@,
            decision.findings@,
            now,
        ),
        r.blocks.deep_view() == blocks_for(
            decision.actions@,
            source_ip@,
            decision.summary@,
            action_ids.deep_view(),
            now,
        ),
        final(state).blocks() == blocks_after(
            old(state).blocks(),
            source_ip@,
            r.blocks.deep_view(),
        ),
        (r.status_code, r.body@) == answer_of(decision.outcome.deep_view()),
{
    let reputation = apply_non_blocking_effects(state, source_ip, decision, now);
    let ghost placed = |n: int|
        blocks_for(
            decision.actions@.take(n),
            source_ip@,
            decision.summary@,
            action_ids.deep_view(),
            now,
        );
    let mut blocks: Vec<ActiveMitigation> = Vec::new();
    let mut i: usize = 0;
    assert(blocks.deep_view() =~= placed(0));
    while i < decision.actions.len()
        invariant
            i <= decision.actions@.len(),
            block_count_of(decision.actions@) <= action_ids@.len(),
            blocks_representable(decision.actions@, now),
            placed == (|n: int|
                blocks_for(
                    decision.actions@.take(n),
                    source_ip@,
                    decision.summary@,
                    action_ids.deep_view(),
                    now,
                )),
            blocks.deep_view() == placed(i as int),
            blocks@.len() == block_count_of(decision.actions@.take(i as int)),
            state.blocks() == blocks_after(
                old(state).blocks(),
                source_ip@,
                blocks.deep_view(),
            ),
            state.reputations() == reputations_after(
                old(state).reputations(),
                source_ip@,
                decision.findings@,
                now,
            ),
        decreases decision.actions@.len() - i,
    {
        assert(decision.actions@.take(i + 1).drop_last() =~= decision.actions@.take(i as int));
        if let MitigationAction::BlockSourceIpTemporary { ttl_secs } = decision.actions[i] {
            proof {
                lemma_count_grows(decision.actions@, i + 1);
            }
            let ghost before = blocks.deep_view();
            let action_id = action_ids[blocks.len()].clone();
            let block = state.block_ip_for(
                source_ip,
                ttl_secs,
                decision.summary.clone(),
                action_id,
                now,
            );
            let ghost view = block.deep_view();
            blocks.push(block);
            assert(blocks.deep_view() =~= before.push(view));
            assert(state.blocks() =~= blocks_after(
                old(state).blocks(),
                source_ip@,
                blocks.deep_view(),
            ));
        }
        i = i + 1;
    }
    assert(decision.actions@.take(i as int) =~= decision.actions@);
    let (status_code, body) = match &decision.outcome {
        DecisionOutcome::Reject { status_code, message } => {
            let status: u16 = if 100 <= *status_code && *status_code < 1000 {
                *status_code
            } else {
                403
            };
            (status, message.clone())
        },
        DecisionOutcome::Allow => (200u16, "allowed".to_string()),
    };
    BlockingOutcome { reputation, blocks, status_code, body }
}

proof fn lemma_count_grows(actions: Seq<MitigationAction>, n: int)
    requires
        0 <= n <= actions.len(),
    ensures
        block_count_of(actions.take(n)) <= block_count_of(actions),
    decreases actions.len() - n,
{
    if n == actions.len() {
        assert(actions.take(n) =~= actions);
    } else {
        lemma_count_grows(actions, n + 1);
        assert(actions.take(n + 1).drop_last() =~= actions.take(n));
    }
}

fn recommendation(
    action_key: &str,
    title: &str,
    rationale: &str,
    risk: &str,
    rollback_hint: &str,
    parameters: Vec<(String, String)>,
) -> (r: Recommendation)
    ensures
        r.deep_view() == (RecommendationView {
            action_key: action_key@,
            title: title@,
            rationale: rationale@,
            risk: risk@,
            rollback_hint: rollback_hint@,
            parameters: parameters.deep_view(),
        }),
{
    Recommendation {
        action_key: action_key.to_string(),
        title: title.to_string(),
        rationale: rationale.to_string(),
        risk: risk.to_string(),
        rollback_hint: rollback_hint.to_string(),
        parameters,
    }
}

/// Makes a table of parameters; a name that comes again gets the later value.
pub fn hashmap(entries: Vec<(String, String)>) -> (r: Vec<(String, String)>)
    ensures
        r.deep_view() == pairs::collected_of(entries.deep_view()),
{
    pairs::collect(entries)
}

/// The recommendation to block a source for a while.
pub open spec fn demo_block() -> RecommendationView {
    RecommendationView {
        action_key: "block_ip_temporary"@,
        title: "Temporarily block suspicious source IP"@,
        rationale: "Source has exceeded suspicious score threshold."@,
        risk: "Low — reversible action with TTL."@,
        rollback_hint: "Use unblock endpoint to remove before TTL expires."@,
        parameters: seq![("source_ip"@, "127.0.0.1"@), ("ttl_secs"@, "900"@)],
    }
}

/// The recommendation to forget what a source did.
pub open spec fn demo_reset() -> RecommendationView {
    RecommendationView {
        action_key: "reset_reputation"@,
        title: "Reset source reputation after review"@,
        rationale: "Analyst confirmed source is benign."@,
        risk: "Low — clears accumulated score only."@,
        rollback_hint: "Score will re-accumulate on future violations."@,
        parameters: seq![("source_ip"@, "127.0.0.1"@)],
    }
}

pub fn demo_recommendations() -> (r: Vec<Recommendation>)
    ensures
        r.deep_view() == seq![demo_block(), demo_reset()],
{
    let mut block_parameters: Vec<(String, String)> = Vec::new();
    block_parameters.push(("source_ip".to_string(), "127.0.0.1".to_string()));
    block_parameters.push(("ttl_secs".to_string(), "900".to_string()));
    assert(block_parameters.deep_view() =~= demo_block().parameters);
    let mut reset_parameters: Vec<(String, String)> = Vec::new();
    reset_parameters.push(("source_ip".to_string(), "127.0.0.1".to_string()));
    assert(reset_parameters.deep_view() =~= demo_reset().parameters);
    proof {
        reveal_strlit("source_ip");
        reveal_strlit("ttl_secs");
        let two = demo_block().parameters;
        let one = demo_reset().parameters;
        assert("source_ip"@.len() != "ttl_secs"@.len());
        assert(two.drop_last() =~= one);
        assert(one.drop_last() =~= Seq::empty());
        assert(pairs::collected_of(one.drop_last()) =~= Seq::empty());
        assert(pairs::collected_of(one) =~= one);
        pairs::lemma_position(one, "ttl_secs"@);
        assert(pairs::position_of(one, "ttl_secs"@) is None);
        assert(pairs::collected_of(two) =~= two);
    }
    let mut out: Vec<Recommendation> = Vec::new();
    out.push(
        recommendation(
            "block_ip_temporary",
            "Temporarily block suspicious source IP",
            "Source has exceeded suspicious score threshold.",
            "Low — reversible action with TTL.",
            "Use unblock endpoint to remove before TTL expires.",
            hashmap(block_parameters),
        ),
    );
    out.push(
        recommendation(
            "reset_reputation",
            "Reset source reputation after review",
            "Analyst confirmed source is benign.",
            "Low — clears accumulated score only.",
            "Score will re-accumulate on future violations.",
            hashmap(reset_parameters),
        ),
    );
    assert(out.deep_view() =~= seq![demo_block(), demo_reset()]);
    out
}

/// The kind of the operator action for a recommendation, and whether it can be undone.
pub open spec fn command_kind(action_key: Seq<char>) -> Option<(OperatorActionKind, bool)> {
    if action_key == "block_ip_temporary"@ {
        Some((OperatorActionKind::BlockIpTemporary, true))
    } else if action_key == "reset_reputation"@ {
        Some((OperatorActionKind::ResetReputation, false))
    } else {
        None
    }
}

/// The operator action for a recommendation, if there is one.
pub open spec fn command_of(rec: RecommendationView) -> Option<OperatorActionCommandView> {
    match command_kind(rec.action_key) {
        Some((kind, reversible)) => Some(
            OperatorActionCommandView {
                kind,
                title: rec.title,
                rationale: rec.rationale,
                reversible,
                parameters: rec.parameters,
            },
        ),
        None => None,
    }
}

pub fn recommendation_to_command(rec: &Recommendation) -> (r: Option<OperatorActionCommand>)
    ensures
        r.deep_view() == command_of(rec.deep_view()),
{
    let key = rec.action_key.as_str();
    let (kind, reversible) = if text::same(key, "block_ip_temporary") {
        (OperatorActionKind::BlockIpTemporary, true)
    } else if text::same(key, "reset_reputation") {
        (OperatorActionKind::ResetReputation, false)
    } else {
        return None;
    };
    Some(
        OperatorActionCommand {
            kind,
            title: rec.title.clone(),
            rationale: rec.rationale.clone(),
            reversible,
            parameters: text::clone_pairs(&rec.parameters),
        },
    )
}

/// A block is in force until it ends and not after: while it lasts the source is found blocked,
/// and from its end on it is not.
pub proof fn law_block_lasts(
    m: Map<Seq<char>, RecordView>,
    ip: Seq<char>,
    seconds: u64,
    reason: Seq<char>,
    action_id: Seq<char>,
    start: Timestamp,
    now: Timestamp,
)
    requires
        EARLIEST <= start,
        start + seconds * SECOND <= LATEST,
    ensures
        active_in(
            m.insert(ip, RecordView::Block(block_of(ip, seconds, reason, action_id, start))),
            ip,
            now,
        ) == (now < start + seconds * SECOND),
{
}

/// Once the block of a source is removed the source is not blocked, and other sources are as
/// before.
pub proof fn law_unblock(
    m: Map<Seq<char>, RecordView>,
    ip: Seq<char>,
    other: Seq<char>,
    now: Timestamp,
)
    ensures
        !active_in(m.remove(ip), ip, now),
        other != ip ==> active_in(m.remove(ip), other, now) == active_in(m, other, now),
{
}

/// A command on one source address.
pub open spec fn source_command(
    kind: OperatorActionKind,
    title: Seq<char>,
    rationale: Seq<char>,
    reversible: bool,
) -> OperatorActionCommandView {
    OperatorActionCommandView {
        kind,
        title,
        rationale,
        reversible,
        parameters: seq![("source_ip"@, "127.0.0.1"@)],
    }
}

fn make_source_command(kind: OperatorActionKind, title: &str, rationale: &str, reversible: bool) -> (r:
    OperatorActionCommand)
    ensures
        r.deep_view() == source_command(kind, title@, rationale@, reversible),
{
    let mut parameters: Vec<(String, String)> = Vec::new();
    parameters.push(("source_ip".to_string(), "127.0.0.1".to_string()));
    assert(parameters.deep_view() =~= seq![("source_ip"@, "127.0.0.1"@)]);
    OperatorActionCommand {
        kind,
        title: title.to_string(),
        rationale: rationale.to_string(),
        reversible,
        parameters,
    }
}

/// The commands that an operator is offered as examples.
pub fn demo_one_click_commands() -> (r: Vec<OperatorActionCommand>)
    ensures
        r.deep_view() == seq![
            OperatorActionCommandView {
                parameters: seq![("ttl_secs"@, "900"@), ("source_ip"@, "127.0.0.1"@)],
                ..source_command(
                    OperatorActionKind::BlockIpTemporary,
                    "Temporarily block source IP"@,
                    "Use for repeated exploit probes."@,
                    true,
                )
            },
            source_command(
                OperatorActionKind::UnblockIp,
                "Remove temporary block"@,
                "Use when analyst confirms the source should be restored."@,
                true,
            ),
            source_command(
                OperatorActionKind::ResetReputation,
                "Reset source reputation"@,
                "Use after analyst review clears the source."@,
                false,
            ),
            source_command(
                OperatorActionKind::ResetReputation,
                "Clear source state"@,
                "Clears both reputation and active temporary block for the source."@,
                false,
            ),
        ],
{
    let mut parameters: Vec<(String, String)> = Vec::new();
    parameters.push(("ttl_secs".to_string(), "900".to_string()));
    parameters.push(("source_ip".to_string(), "127.0.0.1".to_string()));
    assert(parameters.deep_view() =~= seq![("ttl_secs"@, "900"@), ("source_ip"@, "127.0.0.1"@)]);
    let mut block = make_source_command(
        OperatorActionKind::BlockIpTemporary,
        "Temporarily block source IP",
        "Use for repeated exploit probes.",
        true,
    );
    block.parameters = parameters;
    let mut out: Vec<OperatorActionCommand> = Vec::new();
    out.push(block);
    out.push(
        make_source_command(
            OperatorActionKind::UnblockIp,
            "Remove temporary block",
            "Use when analyst confirms the source should be restored.",
            true,
        ),
    );
    out.push(
        make_source_command(
            OperatorActionKind::ResetReputation,
            "Reset source reputation",
            "Use after analyst review clears the source.",
            false,
        ),
    );
    out.push(
        make_source_command(
            OperatorActionKind::ResetReputation,
            "Clear source state",
            "Clears both reputation and active temporary block for the source.",
            false,
        ),
    );
    out
}

} // verus!
