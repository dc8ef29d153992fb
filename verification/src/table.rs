//! Tables that keep their entries in ascending order of their keys.

use crate::text;
use vstd::prelude::*;

verus! {

/// Values under string keys, each key once, in ascending order.
#[derive(Debug)]
pub struct Table<V> {
    entries: Vec<(String, V)>,
}

/// Whether the keys ascend.
pub open spec fn ascending<V>(s: Seq<(Seq<char>, V)>) -> bool {
    forall|i: int, j: int|
        0 <= i < j < s.len() ==> text::less_of((#[trigger] s[i]).0, (#[trigger] s[j]).0)
}

/// The position of a key, if it is there.
pub open spec fn index_of<V>(s: Seq<(Seq<char>, V)>, key: Seq<char>) -> Option<int>
    decreases s.len(),
{
    if s.len() == 0 {
        None
    } else if s.last().0 == key {
        Some(s.len() - 1)
    } else {
        index_of(s.drop_last(), key)
    }
}

/// The value under a key, if it is there.
pub open spec fn at<V>(s: Seq<(Seq<char>, V)>, key: Seq<char>) -> Option<V> {
    match index_of(s, key) {
        Some(i) => Some(s[i].1),
        None => None,
    }
}

/// How many keys stand before a key.
pub open spec fn rank<V>(s: Seq<(Seq<char>, V)>, key: Seq<char>) -> int
    decreases s.len(),
{
    if s.len() == 0 {
        0
    } else if text::less_of(s.last().0, key) {
        s.len() as int
    } else {
        rank(s.drop_last(), key)
    }
}

/// The entries with a value put under a key.
pub open spec fn put<V>(s: Seq<(Seq<char>, V)>, key: Seq<char>, v: V) -> Seq<(Seq<char>, V)> {
    match index_of(s, key) {
        Some(i) => s.update(i, (key, v)),
        None => s.insert(rank(s, key), (key, v)),
    }
}

pub proof fn lemma_index<V>(s: Seq<(Seq<char>, V)>, key: Seq<char>)
    ensures
        match index_of(s, key) {
            Some(i) => 0 <= i < s.len() && s[i].0 == key,
            None => forall|i: int| 0 <= i < s.len() ==> (#[trigger] s[i]).0 != key,
        },
    decreases s.len(),
{
    if s.len() > 0 {
        lemma_index(s.drop_last(), key);
        if index_of(s, key) is None {
            assert forall|i: int| 0 <= i < s.len() implies (#[trigger] s[i]).0 != key by {
                if i < s.len() - 1 {
                    assert(s.drop_last()[i].0 != key);
                }
            }
        }
    }
}

/// A key stands at one position only.
pub proof fn lemma_index_unique<V>(s: Seq<(Seq<char>, V)>, i: int)
    requires
        ascending(s),
        0 <= i < s.len(),
    ensures
        index_of(s, s[i].0) == Some(i),
{
    lemma_index(s, s[i].0);
    let p = index_of(s, s[i].0)->0;
    text::lemma_less_order(s[i].0, s[i].0, s[i].0);
    if index_of(s, s[i].0) is Some {
        if p < i {
            assert(text::less_of(s[p].0, s[i].0));
        } else if i < p {
            assert(text::less_of(s[i].0, s[p].0));
        }
    }
}

pub proof fn lemma_rank<V>(s: Seq<(Seq<char>, V)>, key: Seq<char>)
    requires
        ascending(s),
    ensures
        0 <= rank(s, key) <= s.len(),
        forall|i: int| 0 <= i < rank(s, key) ==> text::less_of((#[trigger] s[i]).0, key),
        forall|i: int| rank(s, key) <= i < s.len() ==> !text::less_of((#[trigger] s[i]).0, key),
    decreases s.len(),
{
    if s.len() > 0 {
        let d = s.drop_last();
        assert(ascending(d)) by {
            assert forall|i: int, j: int| 0 <= i < j < d.len() implies text::less_of(
                (#[trigger] d[i]).0,
                (#[trigger] d[j]).0,
            ) by {
                assert(text::less_of(s[i].0, s[j].0));
            }
        }
        lemma_rank(d, key);
        if text::less_of(s.last().0, key) {
            assert forall|i: int| 0 <= i < s.len() implies text::less_of(
                (#[trigger] s[i]).0,
                key,
            ) by {
                if i < s.len() - 1 {
                    assert(text::less_of(s[i].0, s[s.len() - 1].0));
                    text::lemma_less_order(s[i].0, s.last().0, key);
                }
            }
        } else {
            assert forall|i: int| 0 <= i < rank(s, key) implies text::less_of(
                (#[trigger] s[i]).0,
                key,
            ) by {
                assert(text::less_of(d[i].0, key));
            }
            assert forall|i: int| rank(s, key) <= i < s.len() implies !text::less_of(
                (#[trigger] s[i]).0,
                key,
            ) by {
                if i < d.len() {
                    assert(!text::less_of(d[i].0, key));
                }
            }
        }
    }
}

/// Putting a value keeps the order, changes what is under its key and nothing else.
pub proof fn law_put<V>(s: Seq<(Seq<char>, V)>, key: Seq<char>, v: V)
    requires
        ascending(s),
    ensures
        ascending(put(s, key, v)),
        at(put(s, key, v), key) == Some(v),
        forall|k: Seq<char>| k != key ==> #[trigger] at(put(s, key, v), k) == at(s, k),
        put(s, key, v).len() == (if index_of(s, key) is Some {
            s.len()
        } else {
            s.len() + 1
        }),
{
    let t = put(s, key, v);
    lemma_index(s, key);
    lemma_rank(s, key);
    let r = rank(s, key);
    let place = match index_of(s, key) {
        Some(i) => i,
        None => r,
    };
    assert forall|a: int, b: int| 0 <= a < b < t.len() implies text::less_of(
        (#[trigger] t[a]).0,
        (#[trigger] t[b]).0,
    ) by {
        if index_of(s, key) is Some {
            assert(text::less_of(s[a].0, s[b].0));
        } else if b < r {
            assert(text::less_of(s[a].0, s[b].0));
        } else if b == r {
            assert(text::less_of(s[a].0, key));
        } else if a == r {
            assert(!text::less_of(s[b - 1].0, key));
            assert(s[b - 1].0 != key);
            text::lemma_less_order(key, s[b - 1].0, key);
        } else if a < r {
            assert(text::less_of(s[a].0, s[b - 1].0));
        } else {
            assert(text::less_of(s[a - 1].0, s[b - 1].0));
        }
    }
    assert(t[place] == (key, v));
    lemma_index_unique(t, place);
    assert forall|k: Seq<char>| k != key implies #[trigger] at(t, k) == at(s, k) by {
        lemma_index(s, k);
        lemma_index(t, k);
        match index_of(s, k) {
            Some(i) => {
                let p = if index_of(s, key) is None && i >= r {
                    i + 1
                } else {
                    i
                };
                assert(t[p] == s[i]);
                lemma_index_unique(t, p);
            },
            None => {
                if index_of(t, k) is Some {
                    let p = index_of(t, k)->0;
                    let i = if index_of(s, key) is None && p > r {
                        p - 1
                    } else {
                        p
                    };
                    assert(p != place);
                    assert(s[i] == t[p]);
                }
            },
        }
    }
}

pub open spec fn entries_view<V: DeepView>(s: Seq<(String, V)>) -> Seq<(Seq<char>, V::V)> {
    Seq::new(s.len(), |i: int| (s[i].0@, s[i].1.deep_view()))
}

impl<V: DeepView> DeepView for Table<V> {
    type V = Seq<(Seq<char>, V::V)>;

    closed spec fn deep_view(&self) -> Seq<(Seq<char>, V::V)> {
        entries_view(self.entries@)
    }
}

spec fn keys_ascend<V>(s: Seq<(String, V)>) -> bool {
    ascending(Seq::new(s.len(), |i: int| (s[i].0@, s[i].1)))
}

proof fn lemma_keys_ascend<V: DeepView>(s: Seq<(String, V)>)
    ensures
        keys_ascend(s) == ascending(entries_view(s)),
{
    let shallow = Seq::new(s.len(), |i: int| (s[i].0@, s[i].1));
    let deep = entries_view(s);
    if ascending(shallow) {
        assert forall|i: int, j: int| 0 <= i < j < deep.len() implies text::less_of(
            (#[trigger] deep[i]).0,
            (#[trigger] deep[j]).0,
        ) by {
            assert(text::less_of(shallow[i].0, shallow[j].0));
        }
    }
    if ascending(deep) {
        assert forall|i: int, j: int| 0 <= i < j < shallow.len() implies text::less_of(
            (#[trigger] shallow[i]).0,
            (#[trigger] shallow[j]).0,
        ) by {
            assert(text::less_of(deep[i].0, deep[j].0));
        }
    }
}

impl<V> Table<V> {
    #[verifier::type_invariant]
    spec fn wf(&self) -> bool {
        keys_ascend(self.entries@)
    }
}

impl<V: DeepView> Table<V> {

    pub fn new() -> (r: Self)
        ensures
            r.deep_view() == Seq::<(Seq<char>, V::V)>::empty(),
    {
        let entries: Vec<(String, V)> = Vec::new();
        assert(entries_view(entries@) =~= Seq::empty());
        Table { entries }
    }

    /// The number of entries, whose keys ascend.
    pub fn len(&self) -> (r: usize)
        ensures
            r == self.deep_view().len(),
            ascending(self.deep_view()),
    {
        proof {
            use_type_invariant(self);
            lemma_keys_ascend(self.entries@);
        }
        self.entries.len()
    }

    pub fn key(&self, i: usize) -> (r: &str)
        requires
            i < self.deep_view().len(),
        ensures
            r@ == self.deep_view()[i as int].0,
    {
        self.entries[i].0.as_str()
    }

    pub fn value(&self, i: usize) -> (r: &V)
        requires
            i < self.deep_view().len(),
        ensures
            r.deep_view() == self.deep_view()[i as int].1,
    {
        &self.entries[i].1
    }

    pub fn position(&self, key: &str) -> (r: Option<usize>)
        ensures
            match r {
                Some(i) => index_of(self.deep_view(), key@) == Some(i as int) && i
                    < self.deep_view().len(),
                None => index_of(self.deep_view(), key@) is None,
            },
    {
        let ghost all = self.deep_view();
        let mut i: usize = self.entries.len();
        assert(all.take(i as int) =~= all);
        while i > 0
            invariant
                i <= self.entries@.len(),
                all == entries_view(self.entries@),
                all == self.deep_view(),
                index_of(all, key@) == index_of(all.take(i as int), key@),
            decreases i,
        {
            assert(all.take(i as int).drop_last() =~= all.take(i - 1));
            assert(all.take(i as int).last() == all[i - 1]);
            if text::same(self.entries[i - 1].0.as_str(), key) {
                return Some(i - 1);
            }
            i = i - 1;
        }
        None
    }

    pub fn get(&self, key: &str) -> (r: Option<&V>)
        ensures
            r.deep_view() == at(self.deep_view(), key@),
    {
        match self.position(key) {
            Some(i) => Some(&self.entries[i].1),
            None => None,
        }
    }

    pub fn contains_key(&self, key: &str) -> (r: bool)
        ensures
            r == (at(self.deep_view(), key@) is Some),
    {
        self.position(key).is_some()
    }

    /// Puts a value under a key, in place of any value that was there.
    pub fn insert(&mut self, key: String, v: V)
        ensures
            final(self).deep_view() == put(old(self).deep_view(), key@, v.deep_view()),
            ascending(final(self).deep_view()),
    {
        proof {
            use_type_invariant(&*self);
            lemma_keys_ascend(self.entries@);
        }
        let ghost before = self.deep_view();
        let ghost kv = key@;
        let ghost vv = v.deep_view();
        let found = self.position(key.as_str());
        let mut entries: Vec<(String, V)> = Vec::new();
        assert(entries_view(entries@) =~= Seq::empty());
        core::mem::swap(&mut entries, &mut self.entries);
        proof {
            law_put(before, kv, vv);
            lemma_rank(before, kv);
        }
        match found {
            Some(i) => {
                entries.set(i, (key, v));
                assert(entries_view(entries@) =~= before.update(i as int, (kv, vv)));
            },
            None => {
                let mut i: usize = entries.len();
                assert(before.take(i as int) =~= before);
                while i > 0 && !text::less(entries[i - 1].0.as_str(), key.as_str())
                    invariant
                        i <= entries@.len(),
                        kv == key@,
                        entries_view(entries@) == before,
                        rank(before, kv) == rank(before.take(i as int), kv),
                    decreases i,
                {
                    assert(before.take(i as int).drop_last() =~= before.take(i - 1));
                    assert(before.take(i as int).last() == before[i - 1]);
                    i = i - 1;
                }
                assert(i > 0 ==> before.take(i as int).last() == before[i - 1]);
                assert(rank(before, kv) == i);
                entries.insert(i, (key, v));
                assert(entries_view(entries@) =~= before.insert(i as int, (kv, vv)));
            },
        }
        proof {
            lemma_keys_ascend(entries@);
        }
        *self = Table { entries };
    }

    /// Takes the entry at a position out.
    pub fn remove_at(&mut self, i: usize)
        requires
            i < old(self).deep_view().len(),
        ensures
            final(self).deep_view() == old(self).deep_view().remove(i as int),
            ascending(final(self).deep_view()),
    {
        proof {
            use_type_invariant(&*self);
            lemma_keys_ascend(self.entries@);
        }
        let ghost before = self.deep_view();
        let mut entries: Vec<(String, V)> = Vec::new();
        assert(entries_view(entries@) =~= Seq::empty());
        core::mem::swap(&mut entries, &mut self.entries);
        entries.remove(i);
        proof {
            let t = before.remove(i as int);
            assert(entries_view(entries@) =~= t);
            assert forall|a: int, b: int| 0 <= a < b < t.len() implies text::less_of(
                (#[trigger] t[a]).0,
                (#[trigger] t[b]).0,
            ) by {
                let x = if a < i {
                    a
                } else {
                    a + 1
                };
                let y = if b < i {
                    b
                } else {
                    b + 1
                };
                assert(text::less_of(before[x].0, before[y].0));
            }
        }
        proof {
            lemma_keys_ascend(entries@);
        }
        *self = Table { entries };
    }
}

impl<V: Copy + DeepView> Clone for Table<V> {
    fn clone(&self) -> (r: Self)
        ensures
            r.deep_view() == self.deep_view(),
    {
        proof {
            use_type_invariant(self);
            lemma_keys_ascend(self.entries@);
        }
        let ghost all = entries_view(self.entries@);
        let mut entries: Vec<(String, V)> = Vec::new();
        let mut i: usize = 0;
        while i < self.entries.len()
            invariant
                i <= self.entries@.len(),
                all == entries_view(self.entries@),
                entries_view(entries@) == all.take(i as int),
            decreases self.entries@.len() - i,
        {
            let ghost before = entries_view(entries@);
            let key = self.entries[i].0.clone();
            let v = self.entries[i].1;
            assert(all[i as int] == (key@, v.deep_view()));
            entries.push((key, v));
            assert(entries_view(entries@) =~= before.push((key@, v.deep_view())));
            i = i + 1;
            assert(entries_view(entries@) =~= all.take(i as int));
        }
        proof {
            assert(all.take(i as int) =~= all);
            lemma_keys_ascend(entries@);
        }
        Table { entries }
    }
}

/// Putting a value under a key that comes after all others appends it.
pub proof fn lemma_put_last<V>(s: Seq<(Seq<char>, V)>, key: Seq<char>, v: V)
    requires
        ascending(s.push((key, v))),
    ensures
        put(s, key, v) == s.push((key, v)),
{
    let t = s.push((key, v));
    lemma_index(s, key);
    text::lemma_less_order(key, key, key);
    if index_of(s, key) is Some {
        let i = index_of(s, key)->0;
        assert(text::less_of(t[i].0, t[s.len() as int].0));
    }
    if s.len() > 0 {
        assert(text::less_of(t[s.len() - 1].0, t[s.len() as int].0));
    }
    assert(rank(s, key) == s.len());
    assert(s.insert(s.len() as int, (key, v)) =~= t);
}

/// The first entries of a table ascend.
pub proof fn lemma_take_ascends<V>(s: Seq<(Seq<char>, V)>, n: int)
    requires
        ascending(s),
        0 <= n <= s.len(),
    ensures
        ascending(s.take(n)),
{
    let t = s.take(n);
    assert forall|i: int, j: int| 0 <= i < j < t.len() implies text::less_of(
        (#[trigger] t[i]).0,
        (#[trigger] t[j]).0,
    ) by {
        assert(text::less_of(s[i].0, s[j].0));
    }
}

/// Two tables that hold the same value under every key have the same entries.
pub proof fn law_tables_canonical<V>(a: Seq<(Seq<char>, V)>, b: Seq<(Seq<char>, V)>)
    requires
        ascending(a),
        ascending(b),
        forall|key: Seq<char>| #[trigger] at(a, key) == at(b, key),
    ensures
        a == b,
    decreases a.len() + b.len(),
{
    if a.len() == 0 && b.len() == 0 {
        assert(a =~= b);
    } else if a.len() == 0 {
        lemma_index_unique(b, b.len() - 1);
        assert(at(a, b.last().0) == at(b, b.last().0));
    } else if b.len() == 0 {
        lemma_index_unique(a, a.len() - 1);
        assert(at(a, a.last().0) == at(b, a.last().0));
    } else {
        lemma_index_unique(a, a.len() - 1);
        lemma_index_unique(b, b.len() - 1);
        let ka = a.last().0;
        let kb = b.last().0;
        assert(at(a, ka) == at(b, ka));
        assert(at(a, kb) == at(b, kb));
        lemma_index(b, ka);
        lemma_index(a, kb);
        text::lemma_less_order(ka, kb, ka);
        if index_of(b, ka)->0 < b.len() - 1 {
            assert(text::less_of(b[index_of(b, ka)->0].0, b[b.len() - 1].0));
        }
        if index_of(a, kb)->0 < a.len() - 1 {
            assert(text::less_of(a[index_of(a, kb)->0].0, a[a.len() - 1].0));
        }
        assert(ka == kb);
        let da = a.drop_last();
        let db = b.drop_last();
        assert(ascending(da)) by {
            assert forall|i: int, j: int| 0 <= i < j < da.len() implies text::less_of(
                (#[trigger] da[i]).0,
                (#[trigger] da[j]).0,
            ) by {
                assert(text::less_of(a[i].0, a[j].0));
            }
        }
        assert(ascending(db)) by {
            assert forall|i: int, j: int| 0 <= i < j < db.len() implies text::less_of(
                (#[trigger] db[i]).0,
                (#[trigger] db[j]).0,
            ) by {
                assert(text::less_of(b[i].0, b[j].0));
            }
        }
        assert forall|key: Seq<char>| #[trigger] at(da, key) == at(db, key) by {
            lemma_index(da, key);
            lemma_index(db, key);
            if key == ka {
                if index_of(da, key) is Some {
                    let i = index_of(da, key)->0;
                    assert(text::less_of(a[i].0, a[a.len() - 1].0));
                    text::lemma_less_order(ka, ka, ka);
                }
                if index_of(db, key) is Some {
                    let i = index_of(db, key)->0;
                    assert(text::less_of(b[i].0, b[b.len() - 1].0));
                    text::lemma_less_order(kb, kb, kb);
                }
            } else {
                assert(at(a, key) == at(b, key));
                assert(index_of(a, key) == index_of(da, key));
                assert(index_of(b, key) == index_of(db, key));
            }
        }
        law_tables_canonical(da, db);
        assert(a =~= da.push(a.last()));
        assert(b =~= db.push(b.last()));
    }
}

} // verus!
