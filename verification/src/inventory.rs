//! A map from text to values that lists its entries in ascending key order.

use crate::text::{
    lemma_text_lt_irreflexive, lemma_text_lt_total, lemma_text_lt_transitive, same_text,
    text_before, text_lt,
};
use vstd::prelude::*;

verus! {

/// A value that can be copied without changing what it stands for.
pub trait Duplicate: View + Sized {
    /// A copy of the value.
    fn duplicate(&self) -> (r: Self)
        ensures
            r@ == self@,
    ;
}

/// Entries in strictly ascending key order.
pub open spec fn keys_ascend<T>(s: Seq<(Seq<char>, T)>) -> bool {
    forall|i: int, j: int| 0 <= i < j < s.len() ==> text_lt(#[trigger] s[i].0, #[trigger] s[j].0)
}

/// Whether some entry has the key.
pub open spec fn has_key<T>(s: Seq<(Seq<char>, T)>, key: Seq<char>) -> bool {
    exists|i: int| 0 <= i < s.len() && #[trigger] s[i].0 == key
}

/// The position of an entry with the key.
pub open spec fn key_position<T>(s: Seq<(Seq<char>, T)>, key: Seq<char>) -> int {
    choose|i: int| 0 <= i < s.len() && #[trigger] s[i].0 == key
}

/// The map that a sequence of entries describes.
pub open spec fn entries_map<T>(s: Seq<(Seq<char>, T)>) -> Map<Seq<char>, T> {
    Map::new(|key: Seq<char>| has_key(s, key), |key: Seq<char>| s[key_position(s, key)].1)
}

/// The entries of a map in ascending key order.
pub open spec fn ascending_entries<T>(m: Map<Seq<char>, T>) -> Seq<(Seq<char>, T)> {
    choose|s: Seq<(Seq<char>, T)>| #[trigger] keys_ascend(s) && entries_map(s) == m
}

/// In ascending entries the position of a key is unique.
pub proof fn lemma_key_position<T>(s: Seq<(Seq<char>, T)>, i: int)
    requires
        keys_ascend(s),
        0 <= i < s.len(),
    ensures
        has_key(s, s[i].0),
        key_position(s, s[i].0) == i,
        entries_map(s).dom().contains(s[i].0),
        entries_map(s)[s[i].0] == s[i].1,
{
    let key = s[i].0;
    let p = key_position(s, key);
    assert(has_key(s, key));
    assert(0 <= p < s.len() && s[p].0 == key);
    lemma_text_lt_irreflexive(key);
}

/// Two ascending sequences of entries that describe the same map are equal.
pub proof fn lemma_ascending_unique<T>(a: Seq<(Seq<char>, T)>, b: Seq<(Seq<char>, T)>)
    requires
        keys_ascend(a),
        keys_ascend(b),
        entries_map(a) == entries_map(b),
    ensures
        a == b,
    decreases a.len(),
{
    if a.len() == 0 {
        if b.len() > 0 {
            lemma_key_position(b, 0);
            assert(has_key(a, b[0].0));
        }
        assert(a =~= b);
    } else {
        lemma_key_position(a, 0);
        let p = key_position(b, a[0].0);
        assert(has_key(b, a[0].0));
        lemma_key_position(b, 0);
        let q = key_position(a, b[0].0);
        assert(has_key(a, b[0].0));
        lemma_text_lt_irreflexive(a[0].0);
        if p > 0 {
            // b[0] comes before b[p], which has the key of a[0]
            assert(text_lt(b[0].0, a[0].0));
            if q > 0 {
                lemma_text_lt_transitive(a[0].0, b[0].0, a[0].0);
            }
            assert(false);
        }
        assert(a[0].0 == b[0].0);
        assert(a[0].1 == b[0].1);
        let x = a.drop_first();
        let y = b.drop_first();
        lemma_drop_first(a);
        lemma_drop_first(b);
        lemma_ascending_unique(x, y);
        assert(a =~= seq![a[0]] + x);
        assert(b =~= seq![b[0]] + y);
    }
}

/// Dropping the first of ascending entries removes its key from the map.
pub proof fn lemma_drop_first<T>(s: Seq<(Seq<char>, T)>)
    requires
        keys_ascend(s),
        s.len() > 0,
    ensures
        keys_ascend(s.drop_first()),
        entries_map(s.drop_first()) == entries_map(s).remove(s[0].0),
{
    let r = s.drop_first();
    assert forall|i: int, j: int| 0 <= i < j < r.len() implies text_lt(
        #[trigger] r[i].0,
        #[trigger] r[j].0,
    ) by {
        assert(r[i] == s[i + 1] && r[j] == s[j + 1]);
    }
    let m = entries_map(s).remove(s[0].0);
    lemma_text_lt_irreflexive(s[0].0);
    assert forall|k: Seq<char>| entries_map(r).dom().contains(k) <==> m.dom().contains(k) by {
        if has_key(r, k) {
            let i = key_position(r, k);
            assert(s[i + 1].0 == k);
            assert(text_lt(s[0].0, s[i + 1].0));
        }
        if has_key(s, k) && k != s[0].0 {
            let i = key_position(s, k);
            assert(r[i - 1].0 == k);
        }
    }
    assert forall|k: Seq<char>| entries_map(r).dom().contains(k) implies entries_map(r)[k]
        == m[k] by {
        let i = key_position(r, k);
        lemma_key_position(r, i);
        lemma_key_position(s, i + 1);
    }
    assert(entries_map(r) =~= m);
}

/// Ascending entries are the ascending entries of the map they describe.
pub proof fn lemma_ascending_entries<T>(s: Seq<(Seq<char>, T)>)
    requires
        keys_ascend(s),
    ensures
        ascending_entries(entries_map(s)) == s,
{
    lemma_ascending_unique(ascending_entries(entries_map(s)), s);
}

/// Whether the map has an ascending listing: true of every inventory's map.
pub open spec fn is_listed<T>(m: Map<Seq<char>, T>) -> bool {
    keys_ascend(ascending_entries(m)) && entries_map(ascending_entries(m)) == m
}

/// The position where a key belongs in ascending entries.
pub proof fn lemma_position<T>(s: Seq<(Seq<char>, T)>, k: Seq<char>) -> (p: int)
    requires
        keys_ascend(s),
    ensures
        0 <= p <= s.len(),
        forall|i: int| 0 <= i < p ==> text_lt(#[trigger] s[i].0, k),
        p < s.len() && s[p].0 == k || (forall|i: int|
            p <= i < s.len() ==> text_lt(k, #[trigger] s[i].0)),
    decreases s.len(),
{
    if s.len() == 0 {
        0
    } else if text_lt(s.last().0, k) {
        assert forall|i: int| 0 <= i < s.len() implies text_lt(#[trigger] s[i].0, k) by {
            if i < s.len() - 1 {
                lemma_text_lt_transitive(s[i].0, s.last().0, k);
            }
        }
        s.len() as int
    } else if s.last().0 == k {
        s.len() - 1
    } else {
        lemma_text_lt_total(s.last().0, k);
        let p = lemma_position(s.drop_last(), k);
        assert forall|i: int| 0 <= i < p implies text_lt(#[trigger] s[i].0, k) by {
            assert(s.drop_last()[i] == s[i]);
        }
        if !(p < s.len() - 1 && s[p].0 == k) {
            assert forall|i: int| p <= i < s.len() implies text_lt(k, #[trigger] s[i].0) by {
                if i < s.len() - 1 {
                    assert(s.drop_last()[i] == s[i]);
                }
            }
        }
        p
    }
}

/// A listed map stays listed when an entry is put in or taken out, and its
/// listing has an entry for each key.
pub proof fn lemma_listed<T>(m: Map<Seq<char>, T>, k: Seq<char>, v: T)
    requires
        is_listed(m),
    ensures
        is_listed(m.insert(k, v)),
        is_listed(m.remove(k)),
{
    let s = ascending_entries(m);
    let p = lemma_position(s, k);
    if p < s.len() && s[p].0 == k {
        let t = s.update(p, (k, v));
        lemma_put(s, p, k, v, t);
        lemma_ascending_entries(t);
        let u = s.remove(p);
        lemma_take_out(s, p, u);
        lemma_ascending_entries(u);
    } else {
        let t = s.insert(p, (k, v));
        lemma_put(s, p, k, v, t);
        lemma_ascending_entries(t);
        assert(!has_key(s, k)) by {
            lemma_text_lt_irreflexive(k);
        }
        assert(m.remove(k) =~= m);
    }
}

/// The empty map is listed.
pub proof fn lemma_empty_listed<T>()
    ensures
        is_listed(Map::<Seq<char>, T>::empty()),
        ascending_entries(Map::<Seq<char>, T>::empty()) == Seq::<(Seq<char>, T)>::empty(),
{
    let s = Seq::<(Seq<char>, T)>::empty();
    assert(entries_map(s) =~= Map::<Seq<char>, T>::empty());
    lemma_ascending_entries(s);
}

/// A property of every entry of a listing is a property of every entry of the map.
pub proof fn lemma_listed_entries<T>(m: Map<Seq<char>, T>)
    requires
        is_listed(m),
    ensures
        forall|i: int|
            0 <= i < ascending_entries(m).len() ==> m.dom().contains(
                (#[trigger] ascending_entries(m)[i]).0,
            ) && m[ascending_entries(m)[i].0] == ascending_entries(m)[i].1,
        forall|k: Seq<char>| #[trigger]
            m.dom().contains(k) ==> exists|i: int|
                0 <= i < ascending_entries(m).len() && #[trigger] ascending_entries(m)[i] == (k, m[k]),
{
    let s = ascending_entries(m);
    assert forall|i: int| 0 <= i < s.len() implies m.dom().contains((#[trigger] s[i]).0)
        && m[s[i].0] == s[i].1 by {
        lemma_key_position(s, i);
    }
    assert forall|k: Seq<char>| #[trigger] m.dom().contains(k) implies exists|i: int|
        0 <= i < s.len() && #[trigger] s[i] == (k, m[k]) by {
        assert(entries_map(s).dom().contains(k));
        let i = key_position(s, k);
        lemma_key_position(s, i);
        assert(s[i] == (k, m[k]));
    }
}

/// Values under texts, listed in ascending key order.
#[derive(Debug, PartialEq, Eq)]
pub struct Inventory<V: View> {
    entries: Vec<(String, V)>,
}

impl<V: View> Inventory<V> {
    /// The entries as they stand.
    pub closed spec fn pairs(self) -> Seq<(Seq<char>, V::V)> {
        Seq::new(self.entries@.len(), |i: int| (self.entries@[i].0@, self.entries@[i].1@))
    }

    #[verifier::type_invariant]
    spec fn ordered(self) -> bool {
        keys_ascend(self.pairs())
    }
}

impl<V: View> View for Inventory<V> {
    type V = Map<Seq<char>, V::V>;

    open spec fn view(&self) -> Map<Seq<char>, V::V> {
        entries_map(self.pairs())
    }
}

impl<V: View> Inventory<V> {
    /// An inventory without entries.
    pub fn new() -> (r: Self)
        ensures
            r@ == Map::<Seq<char>, V::V>::empty(),
    {
        let r: Inventory<V> = Inventory { entries: Vec::new() };
        proof {
            assert(r@ =~= Map::<Seq<char>, V::V>::empty());
        }
        r
    }

    /// How many entries there are.
    pub fn len(&self) -> (r: usize)
        ensures
            is_listed(self@),
            r == ascending_entries(self@).len(),
    {
        proof {
            use_type_invariant(self);
            lemma_ascending_entries(self.pairs());
        }
        self.entries.len()
    }

    /// Whether there are no entries.
    pub fn is_empty(&self) -> (r: bool)
        ensures
            r == (self@ == Map::<Seq<char>, V::V>::empty()),
    {
        proof {
            use_type_invariant(self);
            if self.pairs().len() == 0 {
                assert(self@ =~= Map::<Seq<char>, V::V>::empty());
            } else {
                lemma_key_position(self.pairs(), 0);
            }
        }
        self.entries.len() == 0
    }

    /// The key of the entry at a position.
    pub fn key_at(&self, i: usize) -> (r: &String)
        requires
            i < ascending_entries(self@).len(),
        ensures
            r@ == ascending_entries(self@)[i as int].0,
    {
        proof {
            use_type_invariant(self);
            lemma_ascending_entries(self.pairs());
        }
        &self.entries[i].0
    }

    /// The value of the entry at a position.
    pub fn value_at(&self, i: usize) -> (r: &V)
        requires
            i < ascending_entries(self@).len(),
        ensures
            r@ == ascending_entries(self@)[i as int].1,
    {
        proof {
            use_type_invariant(self);
            lemma_ascending_entries(self.pairs());
        }
        &self.entries[i].1
    }

    /// The first position whose key does not come before `key`.
    fn position(&self, key: &str) -> (p: usize)
        ensures
            p <= self.pairs().len(),
            forall|i: int| 0 <= i < p ==> text_lt(#[trigger] self.pairs()[i].0, key@),
            p < self.pairs().len() ==> !text_lt(self.pairs()[p as int].0, key@),
    {
        let mut p: usize = 0;
        while p < self.entries.len() && text_before(self.entries[p].0.as_str(), key)
            invariant
                p <= self.pairs().len(),
                forall|i: int| 0 <= i < p ==> text_lt(#[trigger] self.pairs()[i].0, key@),
            decreases self.entries@.len() - p,
        {
            p = p + 1;
        }
        p
    }

    /// Whether the position that `position` found holds the key.
    fn holds(&self, p: usize, key: &str) -> (r: bool)
        requires
            p <= self.pairs().len(),
            forall|i: int| 0 <= i < p ==> text_lt(#[trigger] self.pairs()[i].0, key@),
            p < self.pairs().len() ==> !text_lt(self.pairs()[p as int].0, key@),
        ensures
            r == has_key(self.pairs(), key@),
            r ==> p < self.pairs().len() && self.pairs()[p as int].0 == key@,
            !r ==> forall|i: int|
                p <= i < self.pairs().len() ==> text_lt(key@, #[trigger] self.pairs()[i].0),
    {
        proof {
            use_type_invariant(self);
            let s = self.pairs();
            if p < s.len() && s[p as int].0 != key@ {
                lemma_text_lt_total(s[p as int].0, key@);
                assert forall|i: int| p <= i < s.len() implies text_lt(key@, #[trigger] s[i].0) by {
                    if i > p {
                        lemma_text_lt_transitive(key@, s[p as int].0, s[i].0);
                    }
                }
            }
            lemma_text_lt_irreflexive(key@);
        }
        p < self.entries.len() && same_text(self.entries[p].0.as_str(), key)
    }

    /// Whether there is an entry with the key.
    pub fn contains_key(&self, key: &str) -> (r: bool)
        ensures
            r == self@.dom().contains(key@),
    {
        let p: usize = self.position(key);
        self.holds(p, key)
    }

    /// The value under the key.
    pub fn get(&self, key: &str) -> (r: Option<&V>)
        ensures
            match r {
                Some(v) => self@.dom().contains(key@) && v@ == self@[key@],
                None => !self@.dom().contains(key@),
            },
    {
        let p: usize = self.position(key);
        if self.holds(p, key) {
            proof {
                use_type_invariant(self);
                lemma_key_position(self.pairs(), p as int);
            }
            Some(&self.entries[p].1)
        } else {
            None
        }
    }

    /// Puts a value under the key, in place of the value there where there is one.
    pub fn insert(&mut self, key: String, value: V)
        ensures
            final(self)@ == old(self)@.insert(key@, value@),
    {
        let p: usize = self.position(key.as_str());
        let present: bool = self.holds(p, key.as_str());
        let ghost before = self.pairs();
        let ghost k = key@;
        let ghost v = value@;
        proof {
            use_type_invariant(&*self);
        }
        let mut entries: Vec<(String, V)> = Vec::new();
        std::mem::swap(&mut entries, &mut self.entries);
        if present {
            entries.set(p, (key, value));
        } else {
            entries.insert(p, (key, value));
        }
        let ghost after = Seq::new(entries@.len(), |i: int| (entries@[i].0@, entries@[i].1@));
        proof {
            if present {
                assert(after =~= before.update(p as int, (k, v)));
            } else {
                assert(after =~= before.insert(p as int, (k, v)));
            }
            lemma_put(before, p as int, k, v, after);
        }
        self.entries = entries;
        proof {
            assert(self.pairs() =~= after);
        }
    }

    /// Removes the entry with the key, where there is one.
    pub fn remove(&mut self, key: &str)
        ensures
            final(self)@ == old(self)@.remove(key@),
    {
        let p: usize = self.position(key);
        let present: bool = self.holds(p, key);
        let ghost before = self.pairs();
        proof {
            use_type_invariant(&*self);
        }
        if present {
            let mut entries: Vec<(String, V)> = Vec::new();
            std::mem::swap(&mut entries, &mut self.entries);
            let _removed: (String, V) = entries.remove(p);
            let ghost after = Seq::new(entries@.len(), |i: int| (entries@[i].0@, entries@[i].1@));
            proof {
                assert(after =~= before.remove(p as int));
                lemma_take_out(before, p as int, after);
            }
            self.entries = entries;
            proof {
                assert(self.pairs() =~= after);
            }
        } else {
            proof {
                assert(self@ =~= old(self)@.remove(key@));
            }
        }
    }
}

impl<V: Duplicate> Duplicate for Inventory<V> {
    fn duplicate(&self) -> (r: Self) {
        proof {
            use_type_invariant(self);
        }
        let mut entries: Vec<(String, V)> = Vec::new();
        let mut i: usize = 0;
        while i < self.entries.len()
            invariant
                i == entries@.len(),
                i <= self.entries@.len(),
                forall|j: int|
                    0 <= j < i ==> (#[trigger] entries@[j]).0@ == self.entries@[j].0@
                        && entries@[j].1@ == self.entries@[j].1@,
            decreases self.entries@.len() - i,
        {
            entries.push((self.entries[i].0.clone(), self.entries[i].1.duplicate()));
            i = i + 1;
        }
        let ghost after = Seq::new(entries@.len(), |j: int| (entries@[j].0@, entries@[j].1@));
        proof {
            assert(after =~= self.pairs());
        }
        let r: Inventory<V> = Inventory { entries };
        proof {
            assert(r.pairs() =~= after);
        }
        r
    }
}

/// Putting an entry where its key belongs.
pub proof fn lemma_put<T>(
    before: Seq<(Seq<char>, T)>,
    p: int,
    k: Seq<char>,
    v: T,
    after: Seq<(Seq<char>, T)>,
)
    requires
        keys_ascend(before),
        0 <= p <= before.len(),
        forall|i: int| 0 <= i < p ==> text_lt(#[trigger] before[i].0, k),
        ({
            ||| p < before.len() && before[p].0 == k && after == before.update(p, (k, v))
            ||| (forall|i: int| p <= i < before.len() ==> text_lt(k, #[trigger] before[i].0))
                && after == before.insert(p, (k, v))
        }),
    ensures
        keys_ascend(after),
        entries_map(after) == entries_map(before).insert(k, v),
{
    let replaced = p < before.len() && before[p].0 == k && after == before.update(p, (k, v));
    assert forall|i: int, j: int| 0 <= i < j < after.len() implies text_lt(
        #[trigger] after[i].0,
        #[trigger] after[j].0,
    ) by {
        if replaced {
            assert(after[i].0 == before[i].0 && after[j].0 == before[j].0);
        } else {
            if j < p {
                assert(after[i] == before[i] && after[j] == before[j]);
            } else if j == p {
                assert(after[i] == before[i] && after[j] == (k, v));
            } else if i < p {
                assert(after[i] == before[i] && after[j] == before[j - 1]);
            } else if i == p {
                assert(after[j] == before[j - 1]);
            } else {
                assert(after[i] == before[i - 1] && after[j] == before[j - 1]);
            }
        }
    }
    let m = entries_map(before).insert(k, v);
    assert(after[p] == (k, v));
    lemma_key_position(after, p);
    assert forall|x: Seq<char>| entries_map(after).dom().contains(x) <==> m.dom().contains(x) by {
        if has_key(before, x) {
            let i = key_position(before, x);
            if replaced {
                assert(after[i].0 == x);
            } else if i < p {
                assert(after[i].0 == x);
            } else {
                assert(after[i + 1].0 == x);
            }
        }
        if has_key(after, x) && x != k {
            let i = key_position(after, x);
            if replaced || i < p {
                assert(before[i].0 == x);
            } else {
                assert(before[i - 1].0 == x);
            }
        }
    }
    assert forall|x: Seq<char>| entries_map(after).dom().contains(x) implies entries_map(after)[x]
        == m[x] by {
        if x != k {
            let i = key_position(after, x);
            lemma_key_position(after, i);
            if replaced || i < p {
                lemma_key_position(before, i);
            } else {
                lemma_key_position(before, i - 1);
            }
        }
    }
    assert(entries_map(after) =~= m);
}

/// Taking out the entry at a position.
proof fn lemma_take_out<T>(before: Seq<(Seq<char>, T)>, p: int, after: Seq<(Seq<char>, T)>)
    requires
        keys_ascend(before),
        0 <= p < before.len(),
        after == before.remove(p),
    ensures
        keys_ascend(after),
        entries_map(after) == entries_map(before).remove(before[p].0),
{
    let k = before[p].0;
    assert forall|i: int| 0 <= i < after.len() implies #[trigger] after[i] == before[if i < p {
        i
    } else {
        i + 1
    }] by {}
    let m = entries_map(before).remove(k);
    assert forall|x: Seq<char>| entries_map(after).dom().contains(x) <==> m.dom().contains(x) by {
        if has_key(before, x) && x != k {
            let i = key_position(before, x);
            if i < p {
                assert(after[i].0 == x);
            } else {
                assert(after[i - 1].0 == x);
            }
        }
        if has_key(after, x) {
            let i = key_position(after, x);
            let j = if i < p {
                i
            } else {
                i + 1
            };
            assert(before[j].0 == x);
            lemma_key_position(before, j);
            lemma_key_position(before, p);
        }
    }
    assert forall|x: Seq<char>| entries_map(after).dom().contains(x) implies entries_map(after)[x]
        == m[x] by {
        let i = key_position(after, x);
        lemma_key_position(after, i);
        let j = if i < p {
            i
        } else {
            i + 1
        };
        assert(before[j] == after[i]);
        lemma_key_position(before, j);
        lemma_key_position(before, p);
        assert(x != k);
    }
    assert(entries_map(after) =~= m);
}

} // verus!
