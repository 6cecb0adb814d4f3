//! Maps with text keys, kept in the order of the keys.

use vstd::prelude::*;

use crate::text::{
    lemma_text_lt_irreflexive, lemma_text_lt_total, lemma_text_lt_transitive, same_text,
    text_before, text_lt,
};
use crate::views::{lemma_views_push, views, Duplicate};

verus! {

/// Every text stands before those behind it.
pub open spec fn strictly_sorted(s: Seq<Seq<char>>) -> bool {
    forall|i: int, j: int| 0 <= i < j < s.len() ==> text_lt(#[trigger] s[i], #[trigger] s[j])
}

/// `s` lists the elements of `d`, each once, in order.
pub open spec fn enumerates(s: Seq<Seq<char>>, d: Set<Seq<char>>) -> bool {
    &&& strictly_sorted(s)
    &&& forall|k: Seq<char>| #[trigger] s.contains(k) <==> d.contains(k)
}

/// The elements of `d` in order.
pub open spec fn in_order(d: Set<Seq<char>>) -> Seq<Seq<char>> {
    choose|s: Seq<Seq<char>>| enumerates(s, d)
}

/// A set has at most one enumeration.
pub proof fn lemma_enumeration_unique(s: Seq<Seq<char>>, t: Seq<Seq<char>>, d: Set<Seq<char>>)
    requires
        enumerates(s, d),
        enumerates(t, d),
    ensures
        s == t,
    decreases s.len(),
{
    if s.len() == 0 {
        if t.len() > 0 {
            assert(t.contains(t[0]));
            assert(s.contains(t[0]));
        }
        assert(s =~= t);
    } else if t.len() == 0 {
        assert(s.contains(s[0]));
        assert(t.contains(s[0]));
    } else {
        assert(s.contains(s[0]) && t.contains(t[0]));
        assert(t.contains(s[0]) && s.contains(t[0]));
        let i = choose|i: int| 0 <= i < t.len() && t[i] == s[0];
        let j = choose|j: int| 0 <= j < s.len() && s[j] == t[0];
        if s[0] != t[0] {
            assert(text_lt(t[0], t[i]));
            assert(text_lt(s[0], s[j]));
            lemma_text_lt_transitive(s[0], t[0], s[0]);
            lemma_text_lt_irreflexive(s[0]);
        }
        let rest = d.remove(s[0]);
        lemma_tail_enumerates(s, d);
        lemma_tail_enumerates(t, d);
        lemma_enumeration_unique(s.drop_first(), t.drop_first(), rest);
        assert(s =~= seq![s[0]] + s.drop_first());
        assert(t =~= seq![t[0]] + t.drop_first());
    }
}

proof fn lemma_tail_enumerates(s: Seq<Seq<char>>, d: Set<Seq<char>>)
    requires
        enumerates(s, d),
        s.len() > 0,
    ensures
        enumerates(s.drop_first(), d.remove(s[0])),
{
    let t = s.drop_first();
    assert(strictly_sorted(t)) by {
        assert forall|i: int, j: int| 0 <= i < j < t.len() implies text_lt(
            #[trigger] t[i],
            #[trigger] t[j],
        ) by {
            assert(text_lt(s[i + 1], s[j + 1]));
        }
    }
    assert forall|k: Seq<char>| #[trigger] t.contains(k) <==> d.remove(s[0]).contains(k) by {
        if t.contains(k) {
            let i = choose|i: int| 0 <= i < t.len() && t[i] == k;
            assert(s[i + 1] == k);
            assert(s.contains(k));
            assert(text_lt(s[0], s[i + 1]));
            lemma_text_lt_irreflexive(k);
        }
        if d.remove(s[0]).contains(k) {
            assert(s.contains(k));
            let i = choose|i: int| 0 <= i < s.len() && s[i] == k;
            assert(t[i - 1] == k);
        }
    }
}

/// A map from text to `V`.
#[derive(Debug, PartialEq)]
pub struct StringMap<V> {
    entries: Vec<(String, V)>,
}

pub closed spec fn key_seq<V>(entries: Seq<(String, V)>) -> Seq<Seq<char>> {
    Seq::new(entries.len(), |i: int| entries[i].0@)
}

pub closed spec fn position<V>(entries: Seq<(String, V)>, k: Seq<char>) -> int {
    choose|i: int| 0 <= i < entries.len() && (#[trigger] entries[i]).0@ == k
}

pub closed spec fn as_map<V>(entries: Seq<(String, V)>) -> Map<Seq<char>, V> {
    Map::new(
        |k: Seq<char>| key_seq(entries).contains(k),
        |k: Seq<char>| entries[position(entries, k)].1,
    )
}

closed spec fn in_tail<V>(entries: Seq<(String, V)>, from: int, k: Seq<char>) -> bool {
    exists|j: int| from <= j < entries.len() && (#[trigger] entries[j]).0@ == k
}

proof fn lemma_as_map<V>(entries: Seq<(String, V)>)
    requires
        strictly_sorted(key_seq(entries)),
    ensures
        forall|i: int|
            0 <= i < entries.len() ==> {
                &&& as_map(entries).contains_key((#[trigger] entries[i]).0@)
                &&& as_map(entries)[entries[i].0@] == entries[i].1
            },
        forall|k: Seq<char>| #[trigger]
            as_map(entries).contains_key(k) ==> exists|i: int|
                0 <= i < entries.len() && (#[trigger] entries[i]).0@ == k,
        enumerates(key_seq(entries), as_map(entries).dom()),
{
    let keys = key_seq(entries);
    assert forall|i: int| 0 <= i < entries.len() implies {
        &&& as_map(entries).contains_key((#[trigger] entries[i]).0@)
        &&& as_map(entries)[entries[i].0@] == entries[i].1
    } by {
        let k = entries[i].0@;
        assert(keys[i] == k);
        assert(keys.contains(k));
        let j = position(entries, k);
        assert(0 <= j < entries.len() && entries[j].0@ == k);
        lemma_text_lt_irreflexive(k);
        if i < j {
            assert(text_lt(keys[i], keys[j]));
        } else if j < i {
            assert(text_lt(keys[j], keys[i]));
        }
    }
    assert forall|k: Seq<char>| #[trigger] as_map(entries).contains_key(k) implies exists|i: int|
        0 <= i < entries.len() && (#[trigger] entries[i]).0@ == k by {
        let i = choose|i: int| 0 <= i < keys.len() && keys[i] == k;
        assert(entries[i].0@ == k);
    }
}

/// Whether `middle` holds the entries of `before` without the one at `i`, where that has the key.
closed spec fn makes_room<V>(
    before: Seq<(String, V)>,
    middle: Seq<(String, V)>,
    i: int,
    same: bool,
    key: Seq<char>,
) -> bool {
    &&& strictly_sorted(key_seq(before))
    &&& 0 <= i <= before.len()
    &&& forall|j: int| 0 <= j < i ==> text_lt((#[trigger] before[j]).0@, key)
    &&& i < before.len() ==> !text_lt(before[i].0@, key)
    &&& same <==> i < before.len() && before[i].0@ == key
    &&& middle == if same {
        before.remove(i)
    } else {
        before
    }
}

#[verifier::spinoff_prover]
proof fn lemma_insert_sorted<V>(
    before: Seq<(String, V)>,
    middle: Seq<(String, V)>,
    i: int,
    same: bool,
    key: String,
    value: V,
)
    requires
        makes_room(before, middle, i, same, key@),
    ensures
        strictly_sorted(key_seq(middle.insert(i, (key, value)))),
{
    let after = middle.insert(i, (key, value));
    let old_keys = key_seq(before);
    let keys = key_seq(after);
    assert forall|j: int| i <= j < middle.len() implies text_lt(
        key@,
        (#[trigger] middle[j]).0@,
    ) by {
        if same {
            assert(middle[j] == before[j + 1]);
            assert(text_lt(old_keys[i], old_keys[j + 1]));
        } else {
            lemma_text_lt_total(before[i].0@, key@);
            assert(text_lt(key@, old_keys[i]));
            if j > i {
                assert(text_lt(old_keys[i], old_keys[j]));
                lemma_text_lt_transitive(key@, old_keys[i], old_keys[j]);
            }
        }
    }
    assert forall|a: int, b: int| 0 <= a < b < keys.len() implies text_lt(
        #[trigger] keys[a],
        #[trigger] keys[b],
    ) by {
        if b < i {
            assert(after[a] == before[a] && after[b] == before[b]);
            assert(text_lt(old_keys[a], old_keys[b]));
        } else if b == i {
            assert(after[a] == before[a]);
        } else if a == i {
            assert(after[b] == middle[b - 1]);
        } else if a < i {
            assert(after[a] == before[a]);
            assert(after[b] == middle[b - 1]);
            lemma_text_lt_transitive(before[a].0@, key@, middle[b - 1].0@);
        } else {
            assert(after[a] == middle[a - 1] && after[b] == middle[b - 1]);
            if same {
                assert(text_lt(old_keys[a], old_keys[b]));
            } else {
                assert(text_lt(old_keys[a - 1], old_keys[b - 1]));
            }
        }
    }
}

#[verifier::spinoff_prover]
proof fn lemma_insert_map<V>(
    before: Seq<(String, V)>,
    middle: Seq<(String, V)>,
    i: int,
    same: bool,
    key: String,
    value: V,
)
    requires
        makes_room(before, middle, i, same, key@),
    ensures
        as_map(middle.insert(i, (key, value))) == as_map(before).insert(key@, value),
{
    let after = middle.insert(i, (key, value));
    lemma_insert_sorted(before, middle, i, same, key, value);
    lemma_as_map(before);
    lemma_as_map(after);
    let target = as_map(before).insert(key@, value);
    assert(after[i] == (key, value));
    assert forall|k: Seq<char>| as_map(after).contains_key(k) <==> target.contains_key(k) by {
        if as_map(after).contains_key(k) {
            let j = choose|j: int| 0 <= j < after.len() && (#[trigger] after[j]).0@ == k;
            if j < i {
                assert(before[j].0@ == k);
            } else if j > i {
                let o = if same { j } else { j - 1 };
                assert(before[o].0@ == k);
            }
        }
        if target.contains_key(k) && k != key@ {
            let j = choose|j: int| 0 <= j < before.len() && (#[trigger] before[j]).0@ == k;
            if j < i {
                assert(after[j].0@ == k);
            } else {
                let o = if same { j } else { j + 1 };
                assert(after[o].0@ == k);
            }
        }
    }
    assert forall|k: Seq<char>| target.contains_key(k) implies as_map(after)[k] == target[k] by {
        if k != key@ {
            let j = choose|j: int| 0 <= j < before.len() && (#[trigger] before[j]).0@ == k;
            if j < i {
                assert(after[j] == before[j]);
            } else {
                let o = if same { j } else { j + 1 };
                assert(after[o] == before[j]);
            }
        }
    }
    assert(as_map(after) =~= target);
}

#[verifier::spinoff_prover]
proof fn lemma_remove<V>(before: Seq<(String, V)>, i: int)
    requires
        strictly_sorted(key_seq(before)),
        0 <= i < before.len(),
    ensures
        strictly_sorted(key_seq(before.remove(i))),
        as_map(before.remove(i)) == as_map(before).remove(before[i].0@),
{
    let after = before.remove(i);
    let old_keys = key_seq(before);
    let keys = key_seq(after);
    assert forall|a: int, b: int| 0 <= a < b < keys.len() implies text_lt(
        #[trigger] keys[a],
        #[trigger] keys[b],
    ) by {
        let p = if a < i { a } else { a + 1 };
        let q = if b < i { b } else { b + 1 };
        assert(keys[a] == old_keys[p] && keys[b] == old_keys[q]);
    }
    lemma_as_map(before);
    lemma_as_map(after);
    let target = as_map(before).remove(before[i].0@);
    assert forall|k: Seq<char>| as_map(after).contains_key(k) <==> target.contains_key(k) by {
        if as_map(after).contains_key(k) {
            let j = choose|j: int| 0 <= j < after.len() && (#[trigger] after[j]).0@ == k;
            let o = if j < i { j } else { j + 1 };
            assert(before[o] == after[j]);
            lemma_text_lt_irreflexive(k);
            if o < i {
                assert(text_lt(old_keys[o], old_keys[i]));
            } else {
                assert(text_lt(old_keys[i], old_keys[o]));
            }
        }
        if target.contains_key(k) {
            let j = choose|j: int| 0 <= j < before.len() && (#[trigger] before[j]).0@ == k;
            let o = if j < i { j } else { j - 1 };
            assert(after[o] == before[j]);
        }
    }
    assert forall|k: Seq<char>| target.contains_key(k) implies as_map(after)[k] == target[k] by {
        let j = choose|j: int| 0 <= j < before.len() && (#[trigger] before[j]).0@ == k;
        let o = if j < i { j } else { j - 1 };
        assert(after[o] == before[j]);
    }
    assert(as_map(after) =~= target);
}

impl<V> StringMap<V> {
    #[verifier::type_invariant]
    pub closed spec fn well_formed(&self) -> bool {
        strictly_sorted(key_seq(self.entries@))
    }

    /// The map from keys to the stored values themselves.
    pub closed spec fn values(&self) -> Map<Seq<char>, V> {
        as_map(self.entries@)
    }
}

impl<V: View> View for StringMap<V> {
    type V = Map<Seq<char>, V::V>;

    open spec fn view(&self) -> Map<Seq<char>, V::V> {
        self.values().map_values(|v: V| v@)
    }
}

impl<V: View> StringMap<V> {
    /// The empty map.
    pub fn new() -> (r: Self)
        ensures
            r@ == Map::<Seq<char>, V::V>::empty(),
    {
        let entries: Vec<(String, V)> = Vec::new();
        assert(key_seq(entries@) =~= Seq::<Seq<char>>::empty());
        let r = StringMap { entries };
        assert(r@ =~= Map::<Seq<char>, V::V>::empty());
        r
    }

    /// The number of keys.
    pub fn len(&self) -> (r: usize)
        ensures
            r == in_order(self@.dom()).len(),
            enumerates(in_order(self@.dom()), self@.dom()),
    {
        proof {
            use_type_invariant(self);
            lemma_as_map(self.entries@);
            assert(self@.dom() =~= self.values().dom());
            lemma_enumeration_unique(
                key_seq(self.entries@),
                in_order(self@.dom()),
                self@.dom(),
            );
        }
        self.entries.len()
    }

    /// The key at position `i` of the order.
    pub fn key_at(&self, i: usize) -> (r: &String)
        requires
            i < in_order(self@.dom()).len(),
        ensures
            r@ == in_order(self@.dom())[i as int],
            self@.contains_key(r@),
    {
        proof {
            use_type_invariant(self);
            lemma_as_map(self.entries@);
            assert(self@.dom() =~= self.values().dom());
            lemma_enumeration_unique(
                key_seq(self.entries@),
                in_order(self@.dom()),
                self@.dom(),
            );
        }
        &self.entries[i].0
    }

    /// The value at position `i` of the order of keys.
    pub fn value_at(&self, i: usize) -> (r: &V)
        requires
            i < in_order(self@.dom()).len(),
        ensures
            r@ == self@[in_order(self@.dom())[i as int]],
            self.values().contains_key(in_order(self@.dom())[i as int]),
            *r == self.values()[in_order(self@.dom())[i as int]],
    {
        proof {
            use_type_invariant(self);
            lemma_as_map(self.entries@);
            assert(self@.dom() =~= self.values().dom());
            lemma_enumeration_unique(
                key_seq(self.entries@),
                in_order(self@.dom()),
                self@.dom(),
            );
        }
        &self.entries[i].1
    }

    fn find(&self, key: &str) -> (r: Option<usize>)
        ensures
            match r {
                Some(i) => i < self.entries@.len() && self.entries@[i as int].0@ == key@,
                None => !self@.contains_key(key@),
            },
    {
        let mut i: usize = 0;
        while i < self.entries.len()
            invariant
                i <= self.entries@.len(),
                forall|j: int| 0 <= j < i ==> (#[trigger] self.entries@[j]).0@ != key@,
            decreases self.entries@.len() - i,
        {
            if same_text(self.entries[i].0.as_str(), key) {
                return Some(i);
            }
            i = i + 1;
        }
        proof {
            use_type_invariant(self);
            lemma_as_map(self.entries@);
            assert(self@.dom() =~= self.values().dom());
        }
        None
    }

    /// The value of `key`.
    pub fn get(&self, key: &str) -> (r: Option<&V>)
        ensures
            match r {
                Some(v) => self@.contains_key(key@) && v@ == self@[key@],
                None => !self@.contains_key(key@),
            },
    {
        proof {
            use_type_invariant(self);
            lemma_as_map(self.entries@);
            assert(self@.dom() =~= self.values().dom());
        }
        match self.find(key) {
            Some(i) => Some(&self.entries[i].1),
            None => None,
        }
    }

    /// Puts `value` at `key`, in place of the value that `key` had before.
    pub fn insert(&mut self, key: String, value: V)
        ensures
            final(self)@ == old(self)@.insert(key@, value@),
    {
        proof {
            use_type_invariant(&*self);
            lemma_as_map(self.entries@);
            assert(self@.dom() =~= self.values().dom());
        }
        let ghost before = self.entries@;
        let mut entries: Vec<(String, V)> = Vec::new();
        std::mem::swap(&mut entries, &mut self.entries);
        let mut i: usize = 0;
        while i < entries.len() && text_before(entries[i].0.as_str(), key.as_str())
            invariant
                i <= entries@.len(),
                entries@ == before,
                forall|j: int| 0 <= j < i ==> text_lt((#[trigger] entries@[j]).0@, key@),
            decreases entries@.len() - i,
        {
            i = i + 1;
        }
        let ghost k = key@;
        let same: bool = i < entries.len() && same_text(entries[i].0.as_str(), key.as_str());
        if same {
            let old_entry = entries.remove(i);
            assert(old_entry.0@ == k);
        }
        let ghost middle = entries@;
        entries.insert(i, (key, value));
        proof {
            assert(makes_room(before, middle, i as int, same, key@));
            lemma_insert_sorted(before, middle, i as int, same, key, value);
            lemma_insert_map(before, middle, i as int, same, key, value);
            assert(entries@ == middle.insert(i as int, (key, value)));
        }
        self.entries = entries;
        assert(self@ =~= old(self)@.insert(key@, value@));
    }

    /// Takes the value of `key` out of the map.
    pub fn remove(&mut self, key: &str) -> (r: Option<V>)
        ensures
            final(self)@ == old(self)@.remove(key@),
            match r {
                Some(v) => old(self)@.contains_key(key@) && v@ == old(self)@[key@],
                None => !old(self)@.contains_key(key@),
            },
    {
        proof {
            use_type_invariant(&*self);
            lemma_as_map(self.entries@);
            assert(self@.dom() =~= self.values().dom());
        }
        match self.find(key) {
            Some(i) => {
                let ghost before = self.entries@;
                let mut entries: Vec<(String, V)> = Vec::new();
                std::mem::swap(&mut entries, &mut self.entries);
                let (_, value) = entries.remove(i);
                proof {
                    lemma_remove(before, i as int);
                }
                self.entries = entries;
                assert(self@ =~= old(self)@.remove(key@));
                Some(value)
            },
            None => {
                assert(self@ =~= old(self)@.remove(key@));
                None
            },
        }
    }

    /// The keys in order.
    pub fn keys(&self) -> (r: Vec<String>)
        ensures
            views(r@) == in_order(self@.dom()),
            enumerates(views(r@), self@.dom()),
    {
        let n: usize = self.len();
        let mut r: Vec<String> = Vec::new();
        let mut i: usize = 0;
        while i < n
            invariant
                i <= n,
                n == in_order(self@.dom()).len(),
                views(r@) == in_order(self@.dom()).take(i as int),
            decreases n - i,
        {
            let key: String = self.key_at(i).clone();
            proof {
                lemma_views_push(r@, key);
                assert(in_order(self@.dom()).take(i + 1) =~= in_order(self@.dom()).take(
                    i as int,
                ).push(key@));
            }
            r.push(key);
            i = i + 1;
        }
        assert(in_order(self@.dom()).take(n as int) =~= in_order(self@.dom()));
        r
    }

    /// Whether there is no key.
    pub fn is_empty(&self) -> (r: bool)
        ensures
            r == (self@.dom() == Set::<Seq<char>>::empty()),
    {
        let n: usize = self.len();
        proof {
            let keys = in_order(self@.dom());
            if n == 0 {
                assert forall|k: Seq<char>| !self@.dom().contains(k) by {
                    assert(!keys.contains(k));
                }
                assert(self@.dom() =~= Set::<Seq<char>>::empty());
            } else {
                assert(keys.contains(keys[0]));
                assert(self@.dom().contains(keys[0]));
            }
        }
        n == 0
    }

    /// Puts every entry of `other` into this map, in place of the values that its keys had before.
    pub fn extend(&mut self, other: StringMap<V>)
        ensures
            final(self)@ == old(self)@.union_prefer_right(other@),
    {
        proof {
            use_type_invariant(&other);
            lemma_as_map(other.entries@);
        }
        let ghost all = other.entries@;
        let ghost start = self@;
        let mut rest: Vec<(String, V)> = other.entries;
        while rest.len() > 0
            invariant
                rest@.len() <= all.len(),
                rest@ == all.take(rest@.len() as int),
                strictly_sorted(key_seq(all)),
                forall|k: Seq<char>|
                    !in_tail(all, rest@.len() as int, k) ==> {
                        &&& #[trigger] self@.contains_key(k) <==> start.contains_key(k)
                        &&& self@.contains_key(k) ==> self@[k] == start[k]
                    },
                forall|j: int|
                    rest@.len() <= j < all.len() ==> {
                        &&& self@.contains_key((#[trigger] all[j]).0@)
                        &&& self@[all[j].0@] == all[j].1@
                    },
            decreases rest@.len(),
        {
            let ghost n = rest@.len() as int;
            match rest.pop() {
                Some((key, value)) => {
                    let ghost before = self@;
                    proof {
                        assert(all[n - 1] == (key, value));
                        assert forall|j: int| n <= j < all.len() implies (#[trigger] all[j]).0@
                            != key@ by {
                            assert(text_lt(key_seq(all)[n - 1], key_seq(all)[j]));
                            lemma_text_lt_irreflexive(key@);
                        }
                    }
                    self.insert(key, value);
                    assert(rest@ =~= all.take(n - 1));
                    assert forall|k: Seq<char>| !in_tail(all, n - 1, k) implies {
                        &&& #[trigger] self@.contains_key(k) <==> start.contains_key(k)
                        &&& self@.contains_key(k) ==> self@[k] == start[k]
                    } by {
                        assert(all[n - 1].0@ != k);
                        assert(!in_tail(all, n, k));
                        assert(before.contains_key(k) <==> start.contains_key(k));
                    }
                },
                None => {},
            }
        }
        proof {
            let target = old(self)@.union_prefer_right(other@);
            assert forall|k: Seq<char>| {
                &&& #[trigger] self@.contains_key(k) <==> target.contains_key(k)
                &&& self@.contains_key(k) ==> self@[k] == target[k]
            } by {
                if in_tail(all, 0, k) {
                    let j = choose|j: int| 0 <= j < all.len() && (#[trigger] all[j]).0@ == k;
                    assert(other@.contains_key(k));
                } else {
                    assert(!other@.contains_key(k));
                }
            }
            assert(self@ =~= target);
        }
    }

    /// Whether `key` has a value.
    pub fn contains_key(&self, key: &str) -> (r: bool)
        ensures
            r == self@.contains_key(key@),
    {
        self.get(key).is_some()
    }
}

impl<V: Duplicate> Duplicate for StringMap<V> {
    fn duplicate(&self) -> (r: Self) {
        proof {
            use_type_invariant(self);
            lemma_as_map(self.entries@);
        }
        let mut entries: Vec<(String, V)> = Vec::new();
        let mut i: usize = 0;
        while i < self.entries.len()
            invariant
                i <= self.entries@.len(),
                entries@.len() == i,
                forall|j: int|
                    0 <= j < i ==> (#[trigger] entries@[j]).0@ == self.entries@[j].0@
                        && entries@[j].1@ == self.entries@[j].1@,
            decreases self.entries@.len() - i,
        {
            entries.push((self.entries[i].0.clone(), self.entries[i].1.duplicate()));
            i = i + 1;
        }
        assert(key_seq(entries@) =~= key_seq(self.entries@));
        let r = StringMap { entries };
        proof {
            lemma_as_map(r.entries@);
            assert forall|k: Seq<char>| #[trigger] r@.contains_key(k) implies r@[k] == self@[k] by {
                let j = choose|j: int| 0 <= j < r.entries@.len() && (#[trigger] r.entries@[j]).0@ == k;
                assert(self.entries@[j].0@ == k);
            }
            assert(r@ =~= self@);
        }
        r
    }
}

impl<V: Duplicate> StringMap<V> {
    /// The entries whose keys are listed.
    pub fn restricted(&self, keys: &[String]) -> (r: Self)
        ensures
            r@ == self@.restrict(views(keys@).to_set()),
    {
        let n: usize = self.len();
        let ghost all = in_order(self@.dom());
        let ghost listed = views(keys@);
        let mut r: StringMap<V> = StringMap::new();
        let mut i: usize = 0;
        while i < n
            invariant
                i <= n,
                n == all.len(),
                all == in_order(self@.dom()),
                listed == views(keys@),
                enumerates(all, self@.dom()),
                forall|k: Seq<char>| #[trigger]
                    r@.contains_key(k) <==> listed.contains(k) && all.take(i as int).contains(k),
                forall|k: Seq<char>| #[trigger] r@.contains_key(k) ==> r@[k] == self@[k],
            decreases n - i,
        {
            let ghost before = r@;
            let ghost seen = all.take(i as int);
            let key: &String = self.key_at(i);
            let kept: bool = listed_in(keys, key);
            if kept {
                r.insert(key.clone(), self.value_at(i).duplicate());
            }
            proof {
                assert forall|k: Seq<char>| #[trigger] r@.contains_key(k) <==> listed.contains(k)
                    && all.take(i + 1).contains(k) by {
                    assert(before.contains_key(k) <==> listed.contains(k) && seen.contains(k));
                    if k == key@ {
                        assert(all.take(i + 1)[i as int] == k);
                    }
                    if seen.contains(k) {
                        let j = choose|j: int| 0 <= j < seen.len() && seen[j] == k;
                        assert(all.take(i + 1)[j] == k);
                    }
                    let next = all.take(i + 1);
                    if next.contains(k) && k != key@ {
                        let j = choose|j: int| 0 <= j < next.len() && next[j] == k;
                        assert(seen[j] == k);
                    }
                }
            }
            i = i + 1;
        }
        proof {
            assert(all.take(n as int) =~= all);
            let target = self@.restrict(listed.to_set());
            assert forall|k: Seq<char>| r@.contains_key(k) <==> target.contains_key(k) by {
                assert(all.contains(k) <==> self@.dom().contains(k));
            }
            assert(r@ =~= target);
        }
        r
    }
}

/// Whether `key` is one of `keys`.
pub fn listed_in(keys: &[String], key: &String) -> (r: bool)
    ensures
        r == views(keys@).contains(key@),
{
    let ghost all = views(keys@);
    let mut i: usize = 0;
    while i < keys.len()
        invariant
            i <= keys@.len(),
            all == views(keys@),
            forall|j: int| 0 <= j < i ==> all[j] != key@,
        decreases keys@.len() - i,
    {
        if keys[i] == *key {
            assert(all[i as int] == key@);
            return true;
        }
        i = i + 1;
    }
    false
}

impl<V: Clone> Clone for StringMap<V> {
    fn clone(&self) -> (r: Self)
        ensures
            r.values().dom() == self.values().dom(),
            forall|k: Seq<char>| #[trigger]
                r.values().contains_key(k) ==> cloned(self.values()[k], r.values()[k]),
    {
        proof {
            use_type_invariant(self);
            lemma_as_map(self.entries@);
        }
        let mut entries: Vec<(String, V)> = Vec::new();
        let mut i: usize = 0;
        while i < self.entries.len()
            invariant
                i <= self.entries@.len(),
                entries@.len() == i,
                forall|j: int|
                    0 <= j < i ==> (#[trigger] entries@[j]).0@ == self.entries@[j].0@ && cloned(
                        self.entries@[j].1,
                        entries@[j].1,
                    ),
            decreases self.entries@.len() - i,
        {
            entries.push((self.entries[i].0.clone(), self.entries[i].1.clone()));
            i = i + 1;
        }
        assert(key_seq(entries@) =~= key_seq(self.entries@));
        let r = StringMap { entries };
        proof {
            lemma_as_map(r.entries@);
            assert(r.values().dom() =~= self.values().dom());
            assert forall|k: Seq<char>| #[trigger] r.values().contains_key(k) implies cloned(
                self.values()[k],
                r.values()[k],
            ) by {
                let j = choose|j: int| 0 <= j < r.entries@.len() && (#[trigger] r.entries@[j]).0@ == k;
                assert(self.entries@[j].0@ == k);
            }
        }
        r
    }
}

} // verus!
