//! Candidates that are best on different examples: the parent whose turn it is, and candidates
//! that complement each other.

use vstd::prelude::*;
use vstd::string::*;

use crate::model::{Candidate, CandidateEvaluation, CandidateEvaluationView, CandidateView};
use crate::score::Score;
use crate::string_map::{enumerates, in_order, StringMap};
use crate::text::{decimal, decimal_text, lemma_text_lt_irreflexive, text_lt};
use crate::views::{views, Duplicate};

verus! {

/// The ids of the examples that some candidate was evaluated on.
pub open spec fn covered(states: Seq<CandidateEvaluationView>) -> Set<Seq<char>> {
    Set::new(
        |id: Seq<char>|
            exists|i: int|
                0 <= i < states.len() && (#[trigger] states[i]).evaluations.contains_key(id),
    )
}

/// Whether a candidate was evaluated on an example, and none has a greater score on it.
pub open spec fn greatest_on(
    states: Seq<CandidateEvaluationView>,
    id: Seq<char>,
    i: int,
) -> bool {
    &&& states[i].evaluations.contains_key(id)
    &&& forall|j: int|
        0 <= j < states.len() && (#[trigger] states[j]).evaluations.contains_key(id)
            ==> !states[i].evaluations[id].score.lt(states[j].evaluations[id].score)
}

/// The first place from `start` on with the greatest score on an example.
pub open spec fn first_greatest(
    states: Seq<CandidateEvaluationView>,
    id: Seq<char>,
    start: int,
) -> Option<int>
    decreases states.len() - start,
{
    if start >= states.len() {
        None
    } else if greatest_on(states, id, start) {
        Some(start)
    } else {
        first_greatest(states, id, start + 1)
    }
}

/// The place of the parent of an iteration: the first with the greatest score on the example whose
/// turn it is. The covered examples take turns in the order of their ids.
pub open spec fn pareto_parent(
    states: Seq<CandidateEvaluationView>,
    iteration: nat,
) -> Option<int> {
    let ids = in_order(covered(states));
    if ids.len() == 0 {
        None
    } else {
        first_greatest(states, ids[iteration as int % ids.len() as int], 0)
    }
}

proof fn lemma_greatest_exists(
    states: Seq<CandidateEvaluationView>,
    id: Seq<char>,
    n: int,
) -> (best: int)
    requires
        0 <= n <= states.len(),
        exists|i: int| 0 <= i < n && (#[trigger] states[i]).evaluations.contains_key(id),
    ensures
        0 <= best < n,
        states[best].evaluations.contains_key(id),
        forall|j: int|
            0 <= j < n && (#[trigger] states[j]).evaluations.contains_key(id)
                ==> !states[best].evaluations[id].score.lt(states[j].evaluations[id].score),
    decreases n,
{
    let m = n - 1;
    if exists|i: int| 0 <= i < m && (#[trigger] states[i]).evaluations.contains_key(id) {
        let best = lemma_greatest_exists(states, id, m);
        if states[m].evaluations.contains_key(id) && states[best].evaluations[id].score.lt(
            states[m].evaluations[id].score,
        ) {
            m
        } else {
            best
        }
    } else {
        m
    }
}

proof fn lemma_first_greatest(states: Seq<CandidateEvaluationView>, id: Seq<char>, start: int)
    requires
        0 <= start,
    ensures
        match first_greatest(states, id, start) {
            Some(i) => {
                &&& start <= i < states.len()
                &&& greatest_on(states, id, i)
                &&& forall|j: int| start <= j < i ==> !greatest_on(states, id, j)
            },
            None => forall|j: int| start <= j < states.len() ==> !greatest_on(states, id, j),
        },
    decreases states.len() - start,
{
    if start < states.len() && !greatest_on(states, id, start) {
        lemma_first_greatest(states, id, start + 1);
    }
}

/// Where an example is covered, there is a parent: of the candidates with the greatest score on
/// the example whose turn it is, it is the first.
pub proof fn parents_are_first_among_the_greatest(
    states: Seq<CandidateEvaluationView>,
    iteration: nat,
)
    requires
        enumerates(in_order(covered(states)), covered(states)),
        in_order(covered(states)).len() > 0,
    ensures
        ({
            let ids = in_order(covered(states));
            let id = ids[iteration as int % ids.len() as int];
            &&& pareto_parent(states, iteration) matches Some(i)
            &&& 0 <= i < states.len()
            &&& greatest_on(states, id, i)
            &&& forall|j: int| 0 <= j < i ==> !greatest_on(states, id, j)
        }),
{
    let ids = in_order(covered(states));
    let turn = iteration as int % ids.len() as int;
    assert(0 <= turn < ids.len());
    assert(ids.contains(ids[turn]));
    assert(covered(states).contains(ids[turn]));
    let best = lemma_greatest_exists(states, ids[turn], states.len() as int);
    assert(greatest_on(states, ids[turn], best));
    lemma_first_greatest(states, ids[turn], 0);
}

/// The examples take turns: as many iterations on as there are covered examples, it is the turn of
/// the same one.
pub proof fn covered_examples_take_turns(states: Seq<CandidateEvaluationView>, iteration: nat)
    ensures
        pareto_parent(states, iteration + in_order(covered(states)).len()) == pareto_parent(
            states,
            iteration,
        ),
{
    let n = in_order(covered(states)).len();
    if n > 0 {
        vstd::arithmetic::div_mod::lemma_mod_add_multiples_vanish(iteration as int, n as int);
        assert((iteration + n) as int % n as int == iteration as int % n as int);
    }
}

fn covered_ids(states: &[CandidateEvaluation]) -> (r: StringMap<bool>)
    ensures
        r@.dom() == covered(views(states@)),
{
    let ghost all = views(states@);
    let n: usize = states.len();
    let mut r: StringMap<bool> = StringMap::new();
    let mut i: usize = 0;
    while i < n
        invariant
            i <= n,
            n == states@.len(),
            all == views(states@),
            forall|id: Seq<char>| #[trigger]
                r@.contains_key(id) <==> exists|k: int|
                    0 <= k < i && (#[trigger] all[k]).evaluations.contains_key(id),
        decreases n - i,
    {
        let ghost before = r@;
        let ghost keys = in_order(states@[i as int].evaluations@.dom());
        let m: usize = states[i].evaluations.len();
        assert(all[i as int] == states@[i as int]@);
        let mut j: usize = 0;
        while j < m
            invariant
                i < n,
                n == states@.len(),
                j <= m,
                m == keys.len(),
                keys == in_order(states@[i as int].evaluations@.dom()),
                forall|id: Seq<char>| #[trigger]
                    r@.contains_key(id) <==> before.contains_key(id) || exists|k: int|
                        0 <= k < j && keys[k] == id,
            decreases m - j,
        {
            let ghost known = r@;
            let key: String = states[i].evaluations.key_at(j).clone();
            assert(key@ == keys[j as int]);
            r.insert(key, true);
            assert forall|id: Seq<char>| #[trigger] r@.contains_key(id) <==> before.contains_key(
                id,
            ) || exists|k: int| 0 <= k < j + 1 && keys[k] == id by {
                if r@.contains_key(id) && id != key@ {
                    assert(known.contains_key(id));
                    if !before.contains_key(id) {
                        let k = choose|k: int| 0 <= k < j && keys[k] == id;
                        assert(0 <= k < j + 1 && keys[k] == id);
                    }
                }
                if exists|k: int| 0 <= k < j + 1 && keys[k] == id {
                    let k = choose|k: int| 0 <= k < j + 1 && keys[k] == id;
                    if k < j {
                        assert(known.contains_key(id));
                    }
                }
            }
            j = j + 1;
        }
        assert forall|id: Seq<char>| #[trigger] r@.contains_key(id) <==> exists|k: int|
            0 <= k < i + 1 && (#[trigger] all[k]).evaluations.contains_key(id) by {
            assert(keys.contains(id) <==> all[i as int].evaluations.contains_key(id));
            if r@.contains_key(id) {
                if before.contains_key(id) {
                    let k = choose|k: int|
                        0 <= k < i && (#[trigger] all[k]).evaluations.contains_key(id);
                    assert(all[k].evaluations.contains_key(id));
                } else {
                    assert(keys.contains(id));
                    assert(all[i as int].evaluations.contains_key(id));
                }
            }
            if exists|k: int| 0 <= k < i + 1 && (#[trigger] all[k]).evaluations.contains_key(id) {
                let k = choose|k: int|
                    0 <= k < i + 1 && (#[trigger] all[k]).evaluations.contains_key(id);
                if k < i {
                    assert(before.contains_key(id));
                }
            }
        }
        i = i + 1;
    }
    assert(r@.dom() =~= covered(all));
    r
}

fn is_greatest_on(states: &[CandidateEvaluation], id: &String, i: usize) -> (r: bool)
    requires
        i < states@.len(),
    ensures
        r == greatest_on(views(states@), id@, i as int),
{
    let ghost all = views(states@);
    let n: usize = states.len();
    assert(all[i as int] == states@[i as int]@);
    let score: Score = match states[i].evaluations.get(id.as_str()) {
        Some(result) => result.score,
        None => {
            return false;
        },
    };
    let mut j: usize = 0;
    while j < n
        invariant
            i < n,
            j <= n,
            n == states@.len(),
            all == views(states@),
            all[i as int].evaluations.contains_key(id@),
            score == all[i as int].evaluations[id@].score,
            forall|k: int|
                0 <= k < j && (#[trigger] all[k]).evaluations.contains_key(id@) ==> !score.lt(
                    all[k].evaluations[id@].score,
                ),
        decreases n - j,
    {
        assert(all[j as int] == states@[j as int]@);
        if let Some(result) = states[j].evaluations.get(id.as_str()) {
            if score.less_than(&result.score) {
                return false;
            }
        }
        j = j + 1;
    }
    true
}

/// Selects the parent of an iteration among candidates; there is none where no example is covered.
pub fn select_pareto_parent(states: &[CandidateEvaluation], iteration: usize) -> (r: Option<usize>)
    ensures
        match r {
            Some(i) => pareto_parent(views(states@), iteration as nat) == Some(i as int),
            None => pareto_parent(views(states@), iteration as nat) is None,
        },
        r is None <==> forall|i: int, id: Seq<char>|
            0 <= i < states@.len() ==> !(#[trigger] states@[i]@.evaluations.contains_key(id)),
{
    let ghost all = views(states@);
    let covering: StringMap<bool> = covered_ids(states);
    let n: usize = covering.len();
    let ghost ids = in_order(covered(all));
    if n == 0 {
        assert forall|i: int, id: Seq<char>| 0 <= i < states@.len() implies !(#[trigger]
        states@[i]@.evaluations.contains_key(id)) by {
            assert(all[i] == states@[i]@);
            if all[i].evaluations.contains_key(id) {
                assert(covered(all).contains(id));
                assert(ids.contains(id));
            }
        }
        return None;
    }
    let turn: usize = iteration % n;
    let id: String = covering.key_at(turn).clone();
    proof {
        parents_are_first_among_the_greatest(all, iteration as nat);
        assert(ids.contains(ids[turn as int]));
        let i = choose|i: int|
            0 <= i < all.len() && (#[trigger] all[i]).evaluations.contains_key(ids[turn as int]);
        assert(states@[i]@.evaluations.contains_key(ids[turn as int]));
    }
    let m: usize = states.len();
    let mut i: usize = 0;
    while i < m
        invariant
            i <= m,
            m == states@.len(),
            all == views(states@),
            first_greatest(all, id@, 0) == first_greatest(all, id@, i as int),
            first_greatest(all, id@, 0) == pareto_parent(all, iteration as nat),
            exists|i: int, id: Seq<char>|
                0 <= i < states@.len() && #[trigger] states@[i]@.evaluations.contains_key(id),
        decreases m - i,
    {
        if is_greatest_on(states, &id, i) {
            return Some(i);
        }
        i = i + 1;
    }
    None
}

/// Whether a candidate has a greater score than another on some example.
pub open spec fn better_somewhere(a: CandidateEvaluationView, b: CandidateEvaluationView) -> bool {
    exists|id: Seq<char>| #[trigger]
        a.evaluations.contains_key(id) && b.evaluations.contains_key(id)
            && b.evaluations[id].score.lt(a.evaluations[id].score)
}

/// Whether each of two candidates is better than the other on some example.
pub open spec fn complement(a: CandidateEvaluationView, b: CandidateEvaluationView) -> bool {
    better_somewhere(a, b) && better_somewhere(b, a)
}

fn is_better_somewhere(a: &CandidateEvaluation, b: &CandidateEvaluation) -> (r: bool)
    ensures
        r == better_somewhere(a@, b@),
{
    let ghost ids = in_order(a@.evaluations.dom());
    let n: usize = a.evaluations.len();
    let mut i: usize = 0;
    while i < n
        invariant
            i <= n,
            n == ids.len(),
            ids == in_order(a@.evaluations.dom()),
            enumerates(ids, a@.evaluations.dom()),
            forall|k: int|
                0 <= k < i && b@.evaluations.contains_key(#[trigger] ids[k])
                    ==> !b@.evaluations[ids[k]].score.lt(a@.evaluations[ids[k]].score),
        decreases n - i,
    {
        assert(ids.contains(ids[i as int]));
        let own: Score = a.evaluations.value_at(i).score;
        if let Some(other) = b.evaluations.get(a.evaluations.key_at(i).as_str()) {
            if other.score.less_than(&own) {
                assert(a@.evaluations.contains_key(ids[i as int]));
                return true;
            }
        }
        i = i + 1;
    }
    assert forall|id: Seq<char>| #[trigger]
        a@.evaluations.contains_key(id) && b@.evaluations.contains_key(id) implies !b@.evaluations[
        id].score.lt(a@.evaluations[id].score) by {
        assert(ids.contains(id));
        let k = choose|k: int| 0 <= k < ids.len() && ids[k] == id;
        assert(b@.evaluations.contains_key(ids[k]));
    }
    false
}

/// Finds the places of the first two candidates that complement each other.
pub fn complementary_pair(states: &[CandidateEvaluation]) -> (r: Option<(usize, usize)>)
    ensures
        match r {
            Some((i, j)) => {
                &&& i < j < states@.len()
                &&& complement(states@[i as int]@, states@[j as int]@)
                &&& forall|a: int, b: int|
                    0 <= a < b < states@.len() && (a < i || a == i && b < j) ==> !complement(
                        #[trigger] states@[a]@,
                        #[trigger] states@[b]@,
                    )
            },
            None => forall|a: int, b: int|
                0 <= a < b < states@.len() ==> !complement(
                    #[trigger] states@[a]@,
                    #[trigger] states@[b]@,
                ),
        },
{
    let n: usize = states.len();
    let mut i: usize = 0;
    while i < n
        invariant
            i <= n,
            n == states@.len(),
            forall|a: int, b: int|
                0 <= a < b < n && a < i ==> !complement(
                    #[trigger] states@[a]@,
                    #[trigger] states@[b]@,
                ),
        decreases n - i,
    {
        let mut j: usize = i + 1;
        while j < n
            invariant
                i < j <= n,
                n == states@.len(),
                forall|a: int, b: int|
                    0 <= a < b < n && (a < i || a == i && b < j) ==> !complement(
                        #[trigger] states@[a]@,
                        #[trigger] states@[b]@,
                    ),
            decreases n - j,
        {
            if is_better_somewhere(&states[i], &states[j]) && is_better_somewhere(
                &states[j],
                &states[i],
            ) {
                return Some((i, j));
            }
            j = j + 1;
        }
        i = i + 1;
    }
    None
}

/// A candidate made of two: it takes its components from the two in turn, in the order of the ids
/// of the first, and from the first where the second has none of that id. Everything else is the
/// first's.
pub open spec fn merged_from(
    merged: CandidateView,
    left: CandidateView,
    right: CandidateView,
    generation: nat,
) -> bool {
    let ids = in_order(left.mutable_components.dom());
    &&& merged.id == left.id + "-"@ + right.id + "-m"@ + decimal(generation)
    &&& merged.parent_id == Some(left.id)
    &&& merged.immutable_context == left.immutable_context
    &&& merged.metadata == left.metadata
    &&& merged.mutable_components.dom() == left.mutable_components.dom()
    &&& forall|i: int|
        0 <= i < ids.len() ==> merged.mutable_components[#[trigger] ids[i]] == if i % 2 == 1
            && right.mutable_components.contains_key(ids[i]) {
            right.mutable_components[ids[i]]
        } else {
            left.mutable_components[ids[i]]
        }
}

/// Merges two candidates.
pub fn merge_candidates(left: &Candidate, right: &Candidate, generation: usize) -> (r: Candidate)
    ensures
        merged_from(r@, left@, right@, generation as nat),
{
    let ghost ids = in_order(left@.mutable_components.dom());
    let n: usize = left.mutable_components.len();
    let mut r: Candidate = left.duplicate();
    let mut i: usize = 0;
    while i < n
        invariant
            i <= n,
            n == ids.len(),
            ids == in_order(left@.mutable_components.dom()),
            enumerates(ids, left@.mutable_components.dom()),
            r@.immutable_context == left@.immutable_context,
            r@.metadata == left@.metadata,
            r@.mutable_components.dom() == left@.mutable_components.dom(),
            forall|k: int|
                0 <= k < n ==> r@.mutable_components[#[trigger] ids[k]] == if k < i && k % 2 == 1
                    && right@.mutable_components.contains_key(ids[k]) {
                    right@.mutable_components[ids[k]]
                } else {
                    left@.mutable_components[ids[k]]
                },
        decreases n - i,
    {
        if i % 2 == 1 {
            let id: String = left.mutable_components.key_at(i).clone();
            assert(ids.contains(ids[i as int]));
            if let Some(component) = right.mutable_components.get(id.as_str()) {
                r.mutable_components.insert(id, component.duplicate());
                assert(r@.mutable_components.dom() =~= left@.mutable_components.dom());
                assert forall|k: int| 0 <= k < n && k != i implies #[trigger] ids[k]
                    != ids[i as int] by {
                    lemma_text_lt_irreflexive(ids[k]);
                    if k < i {
                        assert(text_lt(ids[k], ids[i as int]));
                    } else {
                        assert(text_lt(ids[i as int], ids[k]));
                    }
                }
            }
        }
        i = i + 1;
    }
    let mut id: String = left.id.clone();
    id.append("-");
    id.append(right.id.as_str());
    id.append("-m");
    id.append(decimal_text(generation as u64).as_str());
    Candidate { id, parent_id: Some(left.id.clone()), ..r }
}

} // verus!
