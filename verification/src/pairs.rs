//! Lists of key and value with each key once.

use crate::text;
use vstd::prelude::*;

verus! {

/// The position of the pair with a key, if there is one.
pub open spec fn position_of(s: Seq<(Seq<char>, Seq<char>)>, key: Seq<char>) -> Option<int>
    decreases s.len(),
{
    if s.len() == 0 {
        None
    } else if s.last().0 == key {
        Some(s.len() - 1)
    } else {
        position_of(s.drop_last(), key)
    }
}

/// The value under a key, if there is one.
pub open spec fn value_in(s: Seq<(Seq<char>, Seq<char>)>, key: Seq<char>) -> Option<Seq<char>> {
    match position_of(s, key) {
        Some(i) => Some(s[i].1),
        None => None,
    }
}

/// The pairs, each key once, with the last value that it was given.
pub open spec fn collected_of(s: Seq<(Seq<char>, Seq<char>)>) -> Seq<(Seq<char>, Seq<char>)>
    decreases s.len(),
{
    if s.len() == 0 {
        Seq::empty()
    } else {
        let before = collected_of(s.drop_last());
        match position_of(before, s.last().0) {
            Some(i) => before.update(i, s.last()),
            None => before.push(s.last()),
        }
    }
}

pub open spec fn keys_distinct(s: Seq<(Seq<char>, Seq<char>)>) -> bool {
    forall|i: int, j: int| 0 <= i < j < s.len() ==> (#[trigger] s[i]).0 != (#[trigger] s[j]).0
}

pub proof fn lemma_position(s: Seq<(Seq<char>, Seq<char>)>, key: Seq<char>)
    ensures
        match position_of(s, key) {
            Some(i) => 0 <= i < s.len() && s[i].0 == key,
            None => forall|i: int| 0 <= i < s.len() ==> (#[trigger] s[i]).0 != key,
        },
    decreases s.len(),
{
    if s.len() > 0 {
        lemma_position(s.drop_last(), key);
        if position_of(s, key) is None {
            assert forall|i: int| 0 <= i < s.len() implies (#[trigger] s[i]).0 != key by {
                if i < s.len() - 1 {
                    assert(s.drop_last()[i].0 != key);
                }
            }
        }
    }
}

/// Each key stands once, and its value is the last that it was given.
pub proof fn law_collected(s: Seq<(Seq<char>, Seq<char>)>)
    ensures
        keys_distinct(collected_of(s)),
        collected_of(s).len() <= s.len(),
        forall|key: Seq<char>| #[trigger] value_in(collected_of(s), key) == value_in(s, key),
    decreases s.len(),
{
    if s.len() > 0 {
        let d = s.drop_last();
        law_collected(d);
        let before = collected_of(d);
        let after = collected_of(s);
        let k = s.last().0;
        lemma_position(before, k);
        assert forall|i: int, j: int| 0 <= i < j < after.len() implies (#[trigger] after[i]).0 != (
        #[trigger] after[j]).0 by {
            if position_of(before, k) is Some {
                assert(before[i].0 != before[j].0);
            } else if j < before.len() {
                assert(before[i].0 != before[j].0);
            } else {
                assert(before[i].0 != k);
            }
        }
        assert forall|key: Seq<char>| #[trigger] value_in(after, key) == value_in(s, key) by {
            lemma_position(after, key);
            lemma_position(before, key);
            lemma_position(d, key);
            assert(value_in(before, key) == value_in(d, key));
            if key == k {
                let at = match position_of(before, k) {
                    Some(i) => i,
                    None => before.len() as int,
                };
                assert(after[at] == s.last());
                let p = position_of(after, key)->0;
                assert(p == at) by {
                    if p < at {
                        assert(after[p].0 != after[at].0);
                    } else if at < p {
                        assert(after[at].0 != after[p].0);
                    }
                }
            } else {
                match position_of(before, key) {
                    Some(i) => {
                        assert(after[i] == before[i]);
                        let p = position_of(after, key)->0;
                        assert(p == i) by {
                            if p < i {
                                assert(after[p].0 != after[i].0);
                            } else if i < p {
                                assert(after[i].0 != after[p].0);
                            }
                        }
                        assert(s[position_of(d, key)->0] == d[position_of(d, key)->0]);
                    },
                    None => {
                        assert(position_of(d, key) is None);
                        if position_of(after, key) is Some {
                            let p = position_of(after, key)->0;
                            if p < before.len() && position_of(before, k) != Some(p) {
                                assert(before[p].0 == key);
                            }
                        }
                    },
                }
            }
        }
    }
}

/// The position of the pair with a key.
pub fn find(v: &Vec<(String, String)>, key: &str) -> (r: Option<usize>)
    ensures
        match r {
            Some(i) => position_of(v.deep_view(), key@) == Some(i as int) && i < v@.len(),
            None => position_of(v.deep_view(), key@) is None,
        },
{
    let ghost all = v.deep_view();
    let mut i: usize = v.len();
    assert(all.take(i as int) =~= all);
    while i > 0
        invariant
            i <= v@.len(),
            all == v.deep_view(),
            position_of(all, key@) == position_of(all.take(i as int), key@),
        decreases i,
    {
        assert(all.take(i as int).drop_last() =~= all.take(i - 1));
        assert(all.take(i as int).last() == all[i - 1]);
        if text::same(v[i - 1].0.as_str(), key) {
            return Some(i - 1);
        }
        i = i - 1;
    }
    None
}

/// Makes a table of pairs; a key that comes again gets the later value.
pub fn collect(entries: Vec<(String, String)>) -> (r: Vec<(String, String)>)
    ensures
        r.deep_view() == collected_of(entries.deep_view()),
{
    let ghost all = entries.deep_view();
    let mut out: Vec<(String, String)> = Vec::new();
    let mut i: usize = 0;
    assert(out.deep_view() =~= collected_of(all.take(0)));
    while i < entries.len()
        invariant
            i <= entries@.len(),
            all == entries.deep_view(),
            out.deep_view() == collected_of(all.take(i as int)),
        decreases entries@.len() - i,
    {
        let key = entries[i].0.clone();
        let value = entries[i].1.clone();
        let ghost before = out.deep_view();
        assert(all.take(i + 1).drop_last() =~= all.take(i as int));
        assert(all.take(i + 1).last() == (key@, value@));
        match find(&out, key.as_str()) {
            Some(at) => {
                out.set(at, (key, value));
                assert(out.deep_view() =~= before.update(at as int, (key@, value@)));
            },
            None => {
                out.push((key, value));
                assert(out.deep_view() =~= before.push((key@, value@)));
            },
        }
        i = i + 1;
    }
    assert(all.take(i as int) =~= all);
    out
}

} // verus!
