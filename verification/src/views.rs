//! Views of compound values, and copies that keep the view.

use vstd::prelude::*;

verus! {

/// The views of a sequence of values.
pub open spec fn views<T: View>(v: Seq<T>) -> Seq<T::V> {
    v.map_values(|t: T| t@)
}

/// The view of an optional value.
pub open spec fn opt_view<T: View>(v: Option<T>) -> Option<T::V> {
    match v {
        Some(t) => Some(t@),
        None => None,
    }
}

pub proof fn lemma_views_push<T: View>(v: Seq<T>, t: T)
    ensures
        views(v.push(t)) == views(v).push(t@),
{
    assert(views(v.push(t)) =~= views(v).push(t@));
}

/// The first `i + 1` elements are the first `i` and the one behind them.
pub proof fn lemma_take_next<A>(whole: Seq<A>, i: int)
    requires
        0 <= i < whole.len(),
    ensures
        whole.take(i + 1) == whole.take(i).push(whole[i]),
{
    assert(whole.take(i + 1) =~= whole.take(i).push(whole[i]));
}

/// Values that can be copied without a change of their view.
pub trait Duplicate: View + Sized {
    fn duplicate(&self) -> (r: Self)
        ensures
            r@ == self@,
    ;
}

impl Duplicate for String {
    fn duplicate(&self) -> (r: Self) {
        self.clone()
    }
}

impl Duplicate for u64 {
    fn duplicate(&self) -> (r: Self) {
        *self
    }
}

impl Duplicate for usize {
    fn duplicate(&self) -> (r: Self) {
        *self
    }
}

impl Duplicate for bool {
    fn duplicate(&self) -> (r: Self) {
        *self
    }
}

/// A copy of every element, in order.
pub fn duplicate_all<T: Duplicate>(v: &[T]) -> (r: Vec<T>)
    ensures
        views(r@) == views(v@),
{
    let mut r: Vec<T> = Vec::new();
    let mut i: usize = 0;
    while i < v.len()
        invariant
            i <= v@.len(),
            views(r@) == views(v@.take(i as int)),
        decreases v@.len() - i,
    {
        let t: T = v[i].duplicate();
        proof {
            lemma_views_push(r@, t);
            lemma_views_push(v@.take(i as int), v@[i as int]);
            assert(v@.take(i + 1) =~= v@.take(i as int).push(v@[i as int]));
        }
        r.push(t);
        i = i + 1;
    }
    assert(v@.take(i as int) =~= v@);
    r
}

/// A copy of an optional value.
pub fn duplicate_opt<T: Duplicate>(v: &Option<T>) -> (r: Option<T>)
    ensures
        opt_view(r) == opt_view(*v),
{
    match v {
        Some(t) => Some(t.duplicate()),
        None => None,
    }
}

} // verus!
