//! Keyed records in concurrent maps.

use crate::types::{MitigationAction, Timestamp};
use dashmap::DashMap;
use vstd::prelude::*;

verus! {

/// The requests of one key in its current window. The start is in nanoseconds of a monotonic clock.
#[derive(Debug, Clone, Copy)]
pub struct RateState {
    pub count: u64,
    pub window_start: u64,
}

/// An object identifier and when it was seen, in nanoseconds of a monotonic clock.
#[derive(Debug)]
pub struct SeenId {
    pub at: u64,
    pub id: String,
}

#[verifier::ext_equal]
pub struct SeenIdView {
    pub at: u64,
    pub id: Seq<char>,
}

impl DeepView for SeenId {
    type V = SeenIdView;

    open spec fn deep_view(&self) -> SeenIdView {
        SeenIdView {
            at: self.at,
            id: self.id@,
        }
    }
}

impl Clone for SeenId {
    fn clone(&self) -> (r: Self)
        ensures
            r == *self,
    {
        SeenId {
            at: self.at,
            id: self.id.clone(),
        }
    }
}

/// A running mean and sum of squared deviations over `samples` values. Mean and sum are carried as
/// the bit patterns of the floating-point numbers that the caller computes.
#[derive(Debug, Clone, Copy)]
pub struct Baseline {
    pub samples: u64,
    pub mean_bits: u64,
    pub m2_bits: u64,
}

/// What is known of one principal on one route.
#[derive(Debug)]
pub struct BehaviorState {
    pub rps: Baseline,
    pub body: Baseline,
    pub recent_hits: Vec<u64>,
    pub recent_object_ids: Vec<SeenId>,
}

#[verifier::ext_equal]
pub struct BehaviorStateView {
    pub rps: Baseline,
    pub body: Baseline,
    pub recent_hits: Seq<u64>,
    pub recent_object_ids: Seq<SeenIdView>,
}

impl DeepView for BehaviorState {
    type V = BehaviorStateView;

    open spec fn deep_view(&self) -> BehaviorStateView {
        BehaviorStateView {
            rps: self.rps,
            body: self.body,
            recent_hits: self.recent_hits@,
            recent_object_ids: self.recent_object_ids.deep_view(),
        }
    }
}

impl Clone for BehaviorState {
    fn clone(&self) -> (r: Self)
        ensures
            r.deep_view() == self.deep_view(),
    {
        let recent_hits = self.recent_hits.clone();
        assert(recent_hits@ =~= self.recent_hits@);
        let recent_object_ids = self.recent_object_ids.clone();
        assert(recent_object_ids.deep_view() =~= self.recent_object_ids.deep_view());
        BehaviorState {
            rps: self.rps,
            body: self.body,
            recent_hits,
            recent_object_ids,
        }
    }
}

/// A block of a source that ends by itself.
#[derive(Debug)]
pub struct ActiveMitigation {
    pub action_id: String,
    pub source_ip: String,
    pub action: MitigationAction,
    pub created_at: Timestamp,
    pub expires_at: Timestamp,
    pub reason: String,
}

#[verifier::ext_equal]
pub struct ActiveMitigationView {
    pub action_id: Seq<char>,
    pub source_ip: Seq<char>,
    pub action: MitigationAction,
    pub created_at: Timestamp,
    pub expires_at: Timestamp,
    pub reason: Seq<char>,
}

impl DeepView for ActiveMitigation {
    type V = ActiveMitigationView;

    open spec fn deep_view(&self) -> ActiveMitigationView {
        ActiveMitigationView {
            action_id: self.action_id@,
            source_ip: self.source_ip@,
            action: self.action,
            created_at: self.created_at,
            expires_at: self.expires_at,
            reason: self.reason@,
        }
    }
}

impl Clone for ActiveMitigation {
    fn clone(&self) -> (r: Self)
        ensures
            r == *self,
    {
        ActiveMitigation {
            action_id: self.action_id.clone(),
            source_ip: self.source_ip.clone(),
            action: self.action,
            created_at: self.created_at,
            expires_at: self.expires_at,
            reason: self.reason.clone(),
        }
    }
}

#[derive(Debug, Clone, Copy)]
pub struct SourceReputationEntry {
    pub suspicious_score: i32,
    pub last_seen_at: Timestamp,
}

/// One record of a keyed map.
#[derive(Debug)]
pub enum Record {
    Rate(RateState),
    Behavior(BehaviorState),
    Block(ActiveMitigation),
    Reputation(SourceReputationEntry),
}

#[verifier::ext_equal]
pub enum RecordView {
    Rate(RateState),
    Behavior(BehaviorStateView),
    Block(ActiveMitigationView),
    Reputation(SourceReputationEntry),
}

impl DeepView for Record {
    type V = RecordView;

    open spec fn deep_view(&self) -> RecordView {
        match self {
            Record::Rate(x) => RecordView::Rate(*x),
            Record::Behavior(x) => RecordView::Behavior(x.deep_view()),
            Record::Block(x) => RecordView::Block(x.deep_view()),
            Record::Reputation(x) => RecordView::Reputation(*x),
        }
    }
}

impl Clone for Record {
    fn clone(&self) -> (r: Self)
        ensures
            r.deep_view() == self.deep_view(),
    {
        match self {
            Record::Rate(x) => Record::Rate(*x),
            Record::Behavior(x) => Record::Behavior(x.clone()),
            Record::Block(x) => Record::Block(x.clone()),
            Record::Reputation(x) => Record::Reputation(*x),
        }
    }
}

/// `dashmap::DashMap`, a hash map.
#[verifier::external_type_specification]
#[verifier::external_body]
#[verifier::reject_recursive_types(K)]
#[verifier::reject_recursive_types(V)]
#[verifier::reject_recursive_types(S)]
pub struct ExDashMap<K, V, S>(dashmap::DashMap<K, V, S>);

/// The records of a map, by key.
pub uninterp spec fn records_of(m: DashMap<String, Record>) -> Map<Seq<char>, RecordView>;

/// `DashMap::new` makes an empty map.
#[verifier::external_body]
pub(crate) fn map_new() -> (r: DashMap<String, Record>)
    ensures
        records_of(r) =~= map![],
{
    DashMap::new()
}

/// `DashMap::get` gives the record under a key, if there is one; the record is copied out.
#[verifier::external_body]
pub(crate) fn map_get(m: &DashMap<String, Record>, key: &str) -> (r: Option<Record>)
    ensures
        r.deep_view() == (if records_of(*m).dom().contains(key@) {
            Some(records_of(*m)[key@])
        } else {
            None
        }),
{
    m.get(key).map(|entry| entry.value().clone())
}

/// `DashMap::insert` puts a record under a key, in place of any record that was there.
#[verifier::external_body]
pub(crate) fn map_insert(m: &mut DashMap<String, Record>, key: String, record: Record)
    ensures
        records_of(*final(m)) == records_of(*old(m)).insert(key@, record.deep_view()),
{
    m.insert(key, record);
}

/// `DashMap::remove` takes the record under a key out and says whether there was one.
#[verifier::external_body]
pub(crate) fn map_remove(m: &mut DashMap<String, Record>, key: &str) -> (r: bool)
    ensures
        records_of(*final(m)) == records_of(*old(m)).remove(key@),
        r == records_of(*old(m)).dom().contains(key@),
{
    m.remove(key).is_some()
}

/// `DashMap::iter` visits every record once, in no particular order; the keys are copied out.
#[verifier::external_body]
pub(crate) fn map_keys(m: &DashMap<String, Record>) -> (r: Vec<String>)
    ensures
        r.deep_view().no_duplicates(),
        forall|k: Seq<char>| #[trigger] r.deep_view().contains(k) == records_of(*m).dom().contains(k),
{
    m.iter().map(|entry| entry.key().clone()).collect()
}

/// `DashMap::len` counts the records.
#[verifier::external_body]
pub(crate) fn map_len(m: &DashMap<String, Record>) -> (r: usize)
    ensures
        r == records_of(*m).dom().len(),
{
    m.len()
}

/// What a list holds once an item was added.
pub proof fn lemma_push_contains(s: Seq<Seq<char>>, x: Seq<char>)
    ensures
        forall|y: Seq<char>| #[trigger] s.push(x).contains(y) == (s.contains(y) || y == x),
{
    assert forall|y: Seq<char>| #[trigger]
        s.push(x).contains(y) == (s.contains(y) || y == x) by {
        let t = s.push(x);
        if t.contains(y) {
            let i = choose|i: int| 0 <= i < t.len() && t[i] == y;
            if i < s.len() {
                assert(s[i] == y);
            }
        }
        if s.contains(y) {
            let i = choose|i: int| 0 <= i < s.len() && s[i] == y;
            assert(t[i] == y);
        }
        if y == x {
            assert(t[s.len() as int] == y);
        }
    }
}

/// A list without repetitions stays so when a new item is added.
pub proof fn lemma_push_fresh(s: Seq<Seq<char>>, x: Seq<char>)
    requires
        s.no_duplicates(),
        !s.contains(x),
    ensures
        s.push(x).no_duplicates(),
{
    let t = s.push(x);
    assert forall|i: int, j: int| 0 <= i < t.len() && 0 <= j < t.len() && i != j implies t[i]
        != t[j] by {
        if i < s.len() && j < s.len() {
            assert(s[i] != s[j]);
        } else if i < s.len() {
            assert(s.contains(s[i]));
        } else {
            assert(s.contains(s[j]));
        }
    }
}

} // verus!
