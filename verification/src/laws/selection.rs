//! Laws of the selection of parents, of patches and of what a run evaluates.

use vstd::prelude::*;

use crate::engine::{all_patched, lemma_turn_of, parent_index, patch_error, patched};
use crate::model::{
    CandidateEvaluationView, CandidateSelection, CandidateView, ComponentPatchView,
    HarnessOptErrorView, OptimizationConfigView,
};
use crate::pareto::{covered, greatest_on, parents_are_first_among_the_greatest, pareto_parent};
use crate::string_map::{enumerates, in_order, lemma_enumeration_unique, strictly_sorted};

verus! {

/// The ids are those of the examples that some candidate was evaluated on, in ascending order.
pub open spec fn lists_covered(
    ids: Seq<Seq<char>>,
    states: Seq<CandidateEvaluationView>,
) -> bool {
    &&& strictly_sorted(ids)
    &&& forall|id: Seq<char>| #[trigger]
        ids.contains(id) <==> exists|i: int|
            0 <= i < states.len() && (#[trigger] states[i]).evaluations.contains_key(id)
}

/// No candidate that was evaluated on an example has a greater score on it than the one at `i`,
/// and of every candidate before it that was evaluated on the example some candidate has a greater
/// score.
pub open spec fn first_with_greatest_score(
    states: Seq<CandidateEvaluationView>,
    id: Seq<char>,
    i: int,
) -> bool {
    &&& 0 <= i < states.len()
    &&& states[i].evaluations.contains_key(id)
    &&& forall|j: int|
        0 <= j < states.len() && (#[trigger] states[j]).evaluations.contains_key(id)
            ==> !states[i].evaluations[id].score.lt(states[j].evaluations[id].score)
    &&& forall|j: int|
        0 <= j < i && (#[trigger] states[j]).evaluations.contains_key(id) ==> exists|k: int|
            0 <= k < states.len() && (#[trigger] states[k]).evaluations.contains_key(id)
                && states[j].evaluations[id].score.lt(states[k].evaluations[id].score)
}

/// Whether the parent of an iteration is selected by turns of the covered examples.
pub open spec fn takes_turns(config: OptimizationConfigView, iteration: nat) -> bool {
    ||| config.candidate_selection == CandidateSelection::Pareto
    ||| config.candidate_selection == CandidateSelection::EpsilonGreedy && iteration % 10 != 0
}

/// The parent of an iteration is the first candidate with the greatest score on the example whose
/// turn it is: the one at the place of the iteration among the covered examples in ascending
/// order, counted around. Without a covered example there is no parent.
pub proof fn parents_are_greatest_on_the_example_of_their_turn(
    states: Seq<CandidateEvaluationView>,
    config: OptimizationConfigView,
    iteration: nat,
    best: Option<usize>,
    ids: Seq<Seq<char>>,
)
    requires
        lists_covered(ids, states),
        takes_turns(config, iteration),
    ensures
        ids.len() == 0 ==> parent_index(states, config, iteration, best) is None,
        ids.len() > 0 ==> (parent_index(states, config, iteration, best) matches Some(i)
            && first_with_greatest_score(states, ids[iteration as int % ids.len() as int], i)),
{
    assert(enumerates(ids, covered(states)));
    lemma_enumeration_unique(ids, in_order(covered(states)), covered(states));
    if ids.len() > 0 {
        let id = ids[iteration as int % ids.len() as int];
        parents_are_first_among_the_greatest(states, iteration);
        let i = pareto_parent(states, iteration)->0;
        assert forall|j: int|
            0 <= j < i && (#[trigger] states[j]).evaluations.contains_key(id) implies exists|
            k: int,
        |
            0 <= k < states.len() && (#[trigger] states[k]).evaluations.contains_key(id)
                && states[j].evaluations[id].score.lt(states[k].evaluations[id].score) by {
            assert(!greatest_on(states, id, j));
        }
    }
}

/// In as many iterations in a row as there are covered examples, every example has its turn: some
/// iteration takes the first candidate with the greatest score on it.
pub proof fn every_covered_example_has_its_turn(
    states: Seq<CandidateEvaluationView>,
    config: OptimizationConfigView,
    start: nat,
    best: Option<usize>,
    ids: Seq<Seq<char>>,
    id: Seq<char>,
) -> (k: nat)
    requires
        lists_covered(ids, states),
        config.candidate_selection == CandidateSelection::Pareto,
        ids.contains(id),
    ensures
        k < ids.len(),
        parent_index(states, config, start + k, best) matches Some(i) && first_with_greatest_score(
            states,
            id,
            i,
        ),
{
    let place = choose|i: int| 0 <= i < ids.len() && ids[i] == id;
    let k = lemma_turn_of(start as int, ids.len() as int, place) as nat;
    parents_are_greatest_on_the_example_of_their_turn(states, config, start + k, best, ids);
    k
}

/// The current best is the parent where the configuration asks for it; and every tenth iteration
/// of an epsilon-greedy run goes through the candidates in order, whatever their scores.
pub proof fn other_parents_are_the_best_or_in_order(
    states: Seq<CandidateEvaluationView>,
    config: OptimizationConfigView,
    iteration: nat,
    best: Option<usize>,
)
    ensures
        config.candidate_selection == CandidateSelection::CurrentBest ==> match best {
            Some(i) if i < states.len() => parent_index(states, config, iteration, best) == Some(
                i as int,
            ),
            _ => parent_index(states, config, iteration, best) is None,
        },
        config.candidate_selection == CandidateSelection::EpsilonGreedy && iteration % 10 == 0
            ==> if states.len() == 0 {
            parent_index(states, config, iteration, best) is None
        } else {
            parent_index(states, config, iteration, best) == Some(
                iteration as int % states.len() as int,
            )
        },
{
    if states.len() == 1 {
        vstd::arithmetic::div_mod::lemma_fundamental_div_mod(iteration as int, 1);
    }
}

/// Of the patches of a component the last one counts: its value is the value of the component
/// afterwards.
pub proof fn the_last_patch_of_a_component_counts(
    candidate: CandidateView,
    patches: Seq<ComponentPatchView>,
    at: int,
)
    requires
        all_patched(candidate, patches) is Ok,
        0 <= at < patches.len(),
        forall|j: int|
            at < j < patches.len() ==> (#[trigger] patches[j])->component_id
                != patches[at]->component_id,
    ensures
        ({
            let after = all_patched(candidate, patches)->Ok_0;
            let id = patches[at]->component_id;
            &&& candidate.mutable_components.contains_key(id)
            &&& after.mutable_components.contains_key(id)
            &&& after.mutable_components[id].value == patches[at]->value
            &&& after.mutable_components[id].constraints
                == candidate.mutable_components[id].constraints
        }),
    decreases patches.len(),
{
    let first = patches[0];
    let rest = patches.drop_first();
    let next = patched(candidate, first);
    if at > 0 {
        assert(rest[at - 1] == patches[at]);
        assert forall|j: int| at - 1 < j < rest.len() implies (#[trigger] rest[j])->component_id
            != rest[at - 1]->component_id by {
            assert(rest[j] == patches[j + 1]);
        }
        the_last_patch_of_a_component_counts(next, rest, at - 1);
    } else {
        let id = first->component_id;
        assert forall|j: int| 0 <= j < rest.len() implies (#[trigger] rest[j])->component_id
            != id by {
            assert(rest[j] == patches[j + 1]);
        }
        let others = Set::new(|k: Seq<char>| k != id);
        crate::engine::patches_stay_in_scope(next, rest, others);
        assert(next.mutable_components.contains_key(id));
    }
}

/// Patches are refused exactly when one of them is, and with the error of the first that is: those
/// before it are applied in order.
pub proof fn the_first_refused_patch_decides(
    candidate: CandidateView,
    patches: Seq<ComponentPatchView>,
    n: int,
)
    requires
        0 <= n < patches.len(),
        all_patched(candidate, patches.take(n)) is Ok,
        patch_error(all_patched(candidate, patches.take(n))->Ok_0, patches[n]) is Some,
    ensures
        all_patched(candidate, patches) == Err::<CandidateView, HarnessOptErrorView>(
            patch_error(all_patched(candidate, patches.take(n))->Ok_0, patches[n])->0,
        ),
    decreases n,
{
    if n > 0 {
        let rest = patches.drop_first();
        assert(patches.take(n)[0] == patches[0]);
        assert(patches.take(n).drop_first() =~= rest.take(n - 1));
        assert(rest[n - 1] == patches[n]);
        the_first_refused_patch_decides(patched(candidate, patches[0]), rest, n - 1);
    } else {
        assert(patches.take(0) =~= Seq::empty());
    }
}

} // verus!
