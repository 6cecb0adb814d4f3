//! Laws of the order in which the keys of maps stand.

use vstd::prelude::*;

use crate::string_map::{enumerates, in_order, lemma_enumeration_unique, strictly_sorted};
use crate::text::{
    lemma_text_lt_irreflexive, lemma_text_lt_total, lemma_text_lt_transitive, text_lt,
};

verus! {

/// The elements of a finite set in order: each stands in the list, and nothing else; each stands
/// before those that are greater, and so none stands twice.
pub proof fn finite_sets_are_listed_in_order(d: Set<Seq<char>>)
    requires
        d.finite(),
    ensures
        enumerates(in_order(d), d),
        forall|k: Seq<char>| #[trigger] in_order(d).contains(k) <==> d.contains(k),
        forall|i: int, j: int|
            0 <= i < j < in_order(d).len() ==> text_lt(
                #[trigger] in_order(d)[i],
                #[trigger] in_order(d)[j],
            ) && in_order(d)[i] != in_order(d)[j],
{
    let s = lemma_listed(d);
    assert(enumerates(s, d));
    let t = in_order(d);
    assert forall|i: int, j: int| 0 <= i < j < t.len() implies text_lt(
        #[trigger] t[i],
        #[trigger] t[j],
    ) && t[i] != t[j] by {
        lemma_text_lt_irreflexive(t[i]);
    }
}

/// A list in which each text stands before the next is the only one with its elements.
pub proof fn lists_in_order_are_unique(s: Seq<Seq<char>>, t: Seq<Seq<char>>)
    requires
        forall|i: int, j: int|
            0 <= i < j < s.len() ==> text_lt(#[trigger] s[i], #[trigger] s[j]),
        forall|i: int, j: int|
            0 <= i < j < t.len() ==> text_lt(#[trigger] t[i], #[trigger] t[j]),
        forall|k: Seq<char>| #[trigger] s.contains(k) <==> t.contains(k),
    ensures
        s == t,
        in_order(s.to_set()) == s,
{
    let d = s.to_set();
    assert forall|k: Seq<char>| #[trigger] s.contains(k) <==> d.contains(k) by {}
    assert(enumerates(s, d));
    assert(enumerates(t, d));
    lemma_enumeration_unique(s, t, d);
    lemma_enumeration_unique(s, in_order(d), d);
}

proof fn lemma_listed(d: Set<Seq<char>>) -> (s: Seq<Seq<char>>)
    requires
        d.finite(),
    ensures
        enumerates(s, d),
    decreases d.len(),
{
    if d.len() == 0 {
        let s = Seq::<Seq<char>>::empty();
        assert forall|k: Seq<char>| #[trigger] s.contains(k) <==> d.contains(k) by {
            vstd::set_lib::lemma_set_empty_equivalency_len(d);
        }
        s
    } else {
        let a = d.choose();
        vstd::set_lib::lemma_set_empty_equivalency_len(d);
        assert(d.contains(a));
        let rest = lemma_listed(d.remove(a));
        assert(!rest.contains(a));
        let s = lemma_inserted(rest, a);
        assert forall|k: Seq<char>| #[trigger] s.contains(k) <==> d.contains(k) by {
            assert(rest.contains(k) <==> d.remove(a).contains(k));
        }
        s
    }
}

proof fn lemma_inserted(s: Seq<Seq<char>>, a: Seq<char>) -> (t: Seq<Seq<char>>)
    requires
        strictly_sorted(s),
        !s.contains(a),
    ensures
        strictly_sorted(t),
        forall|k: Seq<char>| #[trigger] t.contains(k) <==> s.contains(k) || k == a,
    decreases s.len(),
{
    if s.len() == 0 || text_lt(a, s[0]) {
        let t = seq![a] + s;
        assert forall|i: int, j: int| 0 <= i < j < t.len() implies text_lt(
            #[trigger] t[i],
            #[trigger] t[j],
        ) by {
            assert(t[j] == s[j - 1]);
            if i == 0 {
                if j > 1 {
                    assert(text_lt(s[0], s[j - 1]));
                    lemma_text_lt_transitive(a, s[0], s[j - 1]);
                }
            } else {
                assert(t[i] == s[i - 1]);
            }
        }
        assert forall|k: Seq<char>| #[trigger] t.contains(k) <==> s.contains(k) || k == a by {
            if s.contains(k) {
                let i = choose|i: int| 0 <= i < s.len() && s[i] == k;
                assert(t[i + 1] == k);
            }
            if k == a {
                assert(t[0] == k);
            }
            if t.contains(k) {
                let i = choose|i: int| 0 <= i < t.len() && t[i] == k;
                if i > 0 {
                    assert(s[i - 1] == k);
                }
            }
        }
        t
    } else {
        let rest = s.drop_first();
        assert forall|i: int, j: int| 0 <= i < j < rest.len() implies text_lt(
            #[trigger] rest[i],
            #[trigger] rest[j],
        ) by {
            assert(rest[i] == s[i + 1] && rest[j] == s[j + 1]);
        }
        assert(!rest.contains(a)) by {
            if rest.contains(a) {
                let i = choose|i: int| 0 <= i < rest.len() && rest[i] == a;
                assert(s[i + 1] == a);
            }
        }
        assert(s.contains(s[0]));
        lemma_text_lt_total(a, s[0]);
        let part = lemma_inserted(rest, a);
        let t = seq![s[0]] + part;
        assert forall|i: int, j: int| 0 <= i < j < t.len() implies text_lt(
            #[trigger] t[i],
            #[trigger] t[j],
        ) by {
            assert(t[j] == part[j - 1]);
            if i == 0 {
                assert(part.contains(part[j - 1]));
                if part[j - 1] != a {
                    let k = choose|k: int| 0 <= k < rest.len() && rest[k] == part[j - 1];
                    assert(rest[k] == s[k + 1]);
                }
            } else {
                assert(t[i] == part[i - 1]);
            }
        }
        assert forall|k: Seq<char>| #[trigger] t.contains(k) <==> s.contains(k) || k == a by {
            if s.contains(k) {
                let i = choose|i: int| 0 <= i < s.len() && s[i] == k;
                if i == 0 {
                    assert(t[0] == k);
                } else {
                    assert(rest[i - 1] == k);
                    assert(part.contains(k));
                    let j = choose|j: int| 0 <= j < part.len() && part[j] == k;
                    assert(t[j + 1] == k);
                }
            }
            if k == a {
                assert(part.contains(k));
                let j = choose|j: int| 0 <= j < part.len() && part[j] == k;
                assert(t[j + 1] == k);
            }
            if t.contains(k) {
                let i = choose|i: int| 0 <= i < t.len() && t[i] == k;
                if i > 0 {
                    assert(part[i - 1] == k);
                    assert(part.contains(k));
                    if k != a {
                        let j = choose|j: int| 0 <= j < rest.len() && rest[j] == k;
                        assert(s[j + 1] == k);
                    }
                }
            }
        }
        t
    }
}

} // verus!
