//! Keeping the first of several items with the same key.

use vstd::prelude::*;

verus! {

/// Whether an item of `s` has the key `k`.
pub open spec fn has_key<A>(s: Seq<A>, key: spec_fn(A) -> Seq<char>, k: Seq<char>) -> bool {
    exists|i: int| 0 <= i < s.len() && key(#[trigger] s[i]) == k
}

/// The items of `s` without those whose key an earlier item has.
pub open spec fn first_by_key<A>(s: Seq<A>, key: spec_fn(A) -> Seq<char>) -> Seq<A>
    decreases s.len(),
{
    if s.len() == 0 {
        Seq::empty()
    } else {
        let before = first_by_key(s.drop_last(), key);
        if has_key(s.drop_last(), key, key(s.last())) {
            before
        } else {
            before.push(s.last())
        }
    }
}

/// Whether all keys are different.
pub open spec fn distinct_keys<A>(s: Seq<A>, key: spec_fn(A) -> Seq<char>) -> bool {
    forall|i: int, j: int|
        0 <= i < j < s.len() ==> key(#[trigger] s[i]) != key(#[trigger] s[j])
}

/// The same keys remain, and each of them once.
pub proof fn law_first_by_key<A>(s: Seq<A>, key: spec_fn(A) -> Seq<char>)
    ensures
        distinct_keys(first_by_key(s, key), key),
        forall|k: Seq<char>| has_key(first_by_key(s, key), key, k) == has_key(s, key, k),
        first_by_key(s, key).len() <= s.len(),
    decreases s.len(),
{
    if s.len() > 0 {
        let d = s.drop_last();
        law_first_by_key(d, key);
        let before = first_by_key(d, key);
        let after = first_by_key(s, key);
        let kl = key(s.last());
        assert forall|i: int, j: int| 0 <= i < j < after.len() implies key(#[trigger] after[i])
            != key(#[trigger] after[j]) by {
            if j == before.len() {
                assert(!has_key(d, key, kl));
                assert(key(before[i]) == kl ==> has_key(before, key, kl));
            }
        }
        assert forall|k: Seq<char>| has_key(after, key, k) == has_key(s, key, k) by {
            if has_key(s, key, k) {
                let i = choose|i: int| 0 <= i < s.len() && key(#[trigger] s[i]) == k;
                if i < d.len() {
                    assert(d[i] == s[i]);
                    assert(has_key(d, key, k));
                    assert(has_key(before, key, k));
                    let m = choose|m: int| 0 <= m < before.len() && key(#[trigger] before[m]) == k;
                    assert(after[m] == before[m]);
                } else if has_key(d, key, kl) {
                    assert(has_key(before, key, k));
                } else {
                    assert(after[before.len() as int] == s.last());
                }
            }
            if has_key(after, key, k) {
                let i = choose|i: int| 0 <= i < after.len() && key(#[trigger] after[i]) == k;
                if i < before.len() {
                    assert(before[i] == after[i]);
                    assert(has_key(before, key, k));
                    assert(has_key(d, key, k));
                    let m = choose|m: int| 0 <= m < d.len() && key(#[trigger] d[m]) == k;
                    assert(s[m] == d[m]);
                } else {
                    assert(s[s.len() - 1] == s.last());
                }
            }
        }
    }
}

proof fn lemma_distinct_kept<A>(s: Seq<A>, key: spec_fn(A) -> Seq<char>)
    requires
        distinct_keys(s, key),
    ensures
        first_by_key(s, key) == s,
    decreases s.len(),
{
    if s.len() > 0 {
        let d = s.drop_last();
        assert forall|i: int, j: int| 0 <= i < j < d.len() implies key(#[trigger] d[i]) != key(
            #[trigger] d[j],
        ) by {
            assert(d[i] == s[i]);
            assert(d[j] == s[j]);
        }
        lemma_distinct_kept(d, key);
        assert(!has_key(d, key, key(s.last()))) by {
            if has_key(d, key, key(s.last())) {
                let i = choose|i: int| 0 <= i < d.len() && key(#[trigger] d[i]) == key(s.last());
                assert(key(s[i]) != key(s[s.len() - 1]));
            }
        }
        assert(d.push(s.last()) =~= s);
    } else {
        assert(s =~= Seq::empty());
    }
}

/// Doing it twice changes nothing more.
pub proof fn law_first_by_key_idempotent<A>(s: Seq<A>, key: spec_fn(A) -> Seq<char>)
    ensures
        first_by_key(first_by_key(s, key), key) == first_by_key(s, key),
{
    law_first_by_key(s, key);
    lemma_distinct_kept(first_by_key(s, key), key);
}

} // verus!
