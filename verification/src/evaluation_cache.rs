//! What a cache gives back of earlier evaluations.

use vstd::prelude::*;

use crate::evaluation::{
    evaluation_start, example_with_id, hits, hits_cost_nothing, looked_up, merged, missed,
    only_misses_are_evaluated, CachedEvaluationView, EvaluationActionView, EvaluationEventView,
    EvaluationStageView,
};
use crate::fingerprint::fingerprint;
use crate::model::{
    run_of, CandidateEvaluationView, CandidateView, ExampleRunView, HarnessExampleView, Split,
};
use crate::string_map::{enumerates, in_order};

verus! {

/// Where a cache keeps the run of an example.
pub open spec fn place(fingerprint: Seq<char>, example: HarnessExampleView) -> (
    Seq<char>,
    Seq<char>,
    Split,
) {
    (fingerprint, example.id, example.split)
}

/// The run that a cache has of an example.
pub open spec fn looked_for(
    cache: Map<(Seq<char>, Seq<char>, Split), ExampleRunView>,
    fingerprint: Seq<char>,
    example: HarnessExampleView,
) -> Option<ExampleRunView> {
    if cache.contains_key(place(fingerprint, example)) {
        Some(cache[place(fingerprint, example)])
    } else {
        None
    }
}

/// What a cache has of the examples.
pub open spec fn found(
    cache: Map<(Seq<char>, Seq<char>, Split), ExampleRunView>,
    fingerprint: Seq<char>,
    examples: Seq<HarnessExampleView>,
) -> Seq<Option<ExampleRunView>> {
    Seq::new(examples.len(), |i: int| looked_for(cache, fingerprint, examples[i]))
}

/// The state and what is asked for once `n` of the runs that were evaluated have been stored and
/// recorded.
pub open spec fn kept(
    state: CachedEvaluationView,
    evaluated: CandidateEvaluationView,
    n: nat,
) -> (CachedEvaluationView, EvaluationActionView)
    decreases n,
{
    if n == 0 {
        state.after(EvaluationEventView::Evaluated(evaluated))
    } else {
        kept(state, evaluated, (n - 1) as nat).0.after(EvaluationEventView::Stored).0.after(
            EvaluationEventView::Recorded,
        )
    }
}

/// The cache once the first `n` of the runs that were evaluated have been stored.
pub open spec fn stored(
    cache: Map<(Seq<char>, Seq<char>, Split), ExampleRunView>,
    state: CachedEvaluationView,
    evaluated: CandidateEvaluationView,
    n: nat,
) -> Map<(Seq<char>, Seq<char>, Split), ExampleRunView>
    decreases n,
{
    if n == 0 {
        cache
    } else {
        let run = state.run_at(evaluated, n - 1)->0;
        stored(cache, state, evaluated, (n - 1) as nat).insert(
            place(state.fingerprint, run.example),
            run,
        )
    }
}

/// No two examples have the same id.
pub open spec fn distinct_ids(examples: Seq<HarnessExampleView>) -> bool {
    forall|i: int, j: int|
        0 <= i < j < examples.len() ==> (#[trigger] examples[i]).id != (#[trigger]
        examples[j]).id
}

/// Every run of a cache is kept under the id of the example that it is a result of.
pub open spec fn keeps_ids(
    cache: Map<(Seq<char>, Seq<char>, Split), ExampleRunView>,
) -> bool {
    forall|at: (Seq<char>, Seq<char>, Split)| #[trigger]
        cache.contains_key(at) ==> cache[at].result.example_id == at.1
}

/// What was evaluated has a result of every example asked for, under its own id, and of no other;
/// and it has no more of them than a map can hold.
pub open spec fn answers_all(
    evaluated: CandidateEvaluationView,
    examples: Seq<HarnessExampleView>,
) -> bool {
    let results = evaluated.evaluations;
    &&& enumerates(in_order(results.dom()), results.dom())
    &&& in_order(results.dom()).len() <= usize::MAX
    &&& forall|k: Seq<char>| #[trigger]
        results.contains_key(k) ==> results[k].example_id == k && exists|j: int|
            0 <= j < examples.len() && (#[trigger] examples[j]).id == k
    &&& forall|j: int|
        0 <= j < examples.len() ==> results.contains_key((#[trigger] examples[j]).id)
}

/// What was evaluated is stored and recorded run by run, each under the id of its example; then
/// the evaluation is complete.
pub proof fn evaluated_runs_are_stored(
    state: CachedEvaluationView,
    evaluated: CandidateEvaluationView,
    n: nat,
)
    requires
        state.stage is Evaluating,
        n <= in_order(evaluated.evaluations.dom()).len() <= usize::MAX,
        forall|at: int|
            0 <= at < in_order(evaluated.evaluations.dom()).len() ==> (#[trigger] state.run_at(
                evaluated,
                at,
            )) is Some,
    ensures
        kept(state, evaluated, n) == if n < in_order(evaluated.evaluations.dom()).len() {
            (
                CachedEvaluationView {
                    stage: EvaluationStageView::Storing { evaluated, at: n as usize },
                    ..state
                },
                EvaluationActionView::Store {
                    fingerprint: state.fingerprint,
                    run: state.run_at(evaluated, n as int)->0,
                },
            )
        } else {
            (
                CachedEvaluationView {
                    stage: EvaluationStageView::Done,
                    evaluation: merged(state.evaluation, evaluated),
                    ..state
                },
                EvaluationActionView::Finish(merged(state.evaluation, evaluated)),
            )
        },
    decreases n,
{
    if n > 0 {
        let m = (n - 1) as nat;
        evaluated_runs_are_stored(state, evaluated, m);
        let before = kept(state, evaluated, m).0;
        let between = before.after(EvaluationEventView::Stored).0;
        assert(between.stage == (EvaluationStageView::RecordingMiss { evaluated, at: m as usize }));
        if n < in_order(evaluated.evaluations.dom()).len() {
            assert(between.run_at(evaluated, n as int) == state.run_at(evaluated, n as int));
        }
    } else {
        if 0 < in_order(evaluated.evaluations.dom()).len() {
            assert(state.run_at(evaluated, 0) is Some);
        }
    }
}

proof fn lemma_example_with_id(examples: Seq<HarnessExampleView>, i: int)
    requires
        0 <= i < examples.len(),
        distinct_ids(examples),
    ensures
        example_with_id(examples, examples[i].id) == Some(examples[i]),
    decreases examples.len(),
{
    if i > 0 {
        assert(examples[0].id != examples[i].id);
        let rest = examples.drop_first();
        assert forall|a: int, b: int| 0 <= a < b < rest.len() implies (#[trigger] rest[a]).id != (
        #[trigger] rest[b]).id by {
            assert(examples[a + 1].id != examples[b + 1].id);
        }
        lemma_example_with_id(rest, i - 1);
        assert(rest[i - 1] == examples[i]);
    }
}

spec fn is_missed(
    examples: Seq<HarnessExampleView>,
    cached: Seq<Option<ExampleRunView>>,
    example: HarnessExampleView,
) -> bool {
    exists|i: int|
        0 <= i < cached.len() && (#[trigger] cached[i]) is None && examples[i] == example
}

proof fn lemma_missed(
    examples: Seq<HarnessExampleView>,
    cached: Seq<Option<ExampleRunView>>,
)
    requires
        cached.len() <= examples.len(),
    ensures
        forall|i: int|
            0 <= i < cached.len() && (#[trigger] cached[i]) is None ==> missed(
                examples,
                cached,
            ).contains(examples[i]),
        forall|j: int|
            0 <= j < missed(examples, cached).len() ==> is_missed(
                examples,
                cached,
                #[trigger] missed(examples, cached)[j],
            ),
    decreases cached.len(),
{
    if cached.len() > 0 {
        let rest = cached.drop_last();
        let last = cached.len() - 1;
        lemma_missed(examples, rest);
        let before = missed(examples, rest);
        let after = missed(examples, cached);
        assert forall|i: int| 0 <= i < cached.len() && (#[trigger] cached[i]) is None implies
            after.contains(examples[i]) by {
            if i < last {
                assert(rest[i] is None);
                let j = choose|j: int| 0 <= j < before.len() && before[j] == examples[i];
                assert(after[j] == examples[i]);
            } else {
                assert(after[before.len() as int] == examples[i]);
            }
        }
        assert forall|j: int| 0 <= j < after.len() implies is_missed(
            examples,
            cached,
            #[trigger] after[j],
        ) by {
            if j < before.len() {
                assert(before[j] == after[j]);
                let i = choose|i: int|
                    0 <= i < rest.len() && (#[trigger] rest[i]) is None && examples[i]
                        == before[j];
                assert(cached[i] is None);
            } else {
                assert(cached[last] is None);
            }
        }
    }
}

proof fn lemma_hits(
    candidate: CandidateView,
    examples: Seq<HarnessExampleView>,
    cached: Seq<Option<ExampleRunView>>,
)
    requires
        cached.len() <= examples.len(),
        distinct_ids(examples),
        forall|i: int|
            0 <= i < cached.len() && (#[trigger] cached[i]) is Some
                ==> cached[i]->0.result.example_id == examples[i].id,
    ensures
        hits(candidate, cached).candidate == candidate,
        forall|k: Seq<char>| #[trigger]
            hits(candidate, cached).evaluations.contains_key(k) ==> exists|i: int|
                0 <= i < cached.len() && (#[trigger] cached[i]) is Some && examples[i].id == k,
        forall|i: int|
            0 <= i < cached.len() && (#[trigger] cached[i]) is Some ==> {
                &&& hits(candidate, cached).evaluations.contains_key(examples[i].id)
                &&& hits(candidate, cached).evaluations[examples[i].id] == cached[i]->0.result
            },
    decreases cached.len(),
{
    if cached.len() > 0 {
        let rest = cached.drop_last();
        let last = cached.len() - 1;
        assert forall|i: int| 0 <= i < rest.len() && (#[trigger] rest[i]) is Some implies rest[i]
            ->0.result.example_id == examples[i].id by {
            assert(cached[i] is Some);
        }
        lemma_hits(candidate, examples, rest);
        let before = hits(candidate, rest);
        let after = hits(candidate, cached);
        assert forall|k: Seq<char>| #[trigger] after.evaluations.contains_key(k) implies exists|
            i: int,
        |
            0 <= i < cached.len() && (#[trigger] cached[i]) is Some && examples[i].id == k by {
            if before.evaluations.contains_key(k) {
                let i = choose|i: int|
                    0 <= i < rest.len() && (#[trigger] rest[i]) is Some && examples[i].id == k;
                assert(cached[i] is Some);
            } else {
                assert(cached[last] is Some);
            }
        }
        assert forall|i: int| 0 <= i < cached.len() && (#[trigger] cached[i]) is Some implies {
            &&& after.evaluations.contains_key(examples[i].id)
            &&& after.evaluations[examples[i].id] == cached[i]->0.result
        } by {
            if i < last {
                assert(rest[i] is Some);
                assert(examples[i].id != examples[last].id);
            }
        }
    }
}

proof fn lemma_stored(
    cache: Map<(Seq<char>, Seq<char>, Split), ExampleRunView>,
    state: CachedEvaluationView,
    evaluated: CandidateEvaluationView,
    n: nat,
    i: int,
)
    requires
        distinct_ids(state.examples),
        n <= in_order(evaluated.evaluations.dom()).len(),
        forall|at: int|
            0 <= at < in_order(evaluated.evaluations.dom()).len() ==> exists|k: int|
                0 <= k < state.examples.len() && (#[trigger] state.examples[k]).id
                    == #[trigger] in_order(evaluated.evaluations.dom())[at],
        0 <= i < state.examples.len(),
    ensures
        looked_for(
            stored(cache, state, evaluated, n),
            state.fingerprint,
            state.examples[i],
        ) == if in_order(evaluated.evaluations.dom()).take(n as int).contains(
            state.examples[i].id,
        ) {
            Some(run_of(evaluated, state.examples[i], 1))
        } else {
            looked_for(cache, state.fingerprint, state.examples[i])
        },
    decreases n,
{
    let ids = in_order(evaluated.evaluations.dom());
    let id = state.examples[i].id;
    if n > 0 {
        let m = (n - 1) as nat;
        lemma_stored(cache, state, evaluated, m, i);
        let k = choose|k: int|
            0 <= k < state.examples.len() && (#[trigger] state.examples[k]).id == ids[m as int];
        lemma_example_with_id(state.examples, k);
        assert(state.run_at(evaluated, m as int) == Some(
            run_of(evaluated, state.examples[k], 1),
        ));
        if ids.take(m as int).contains(id) {
            let a = choose|a: int| 0 <= a < m && ids.take(m as int)[a] == id;
            assert(ids.take(n as int)[a] == id);
        }
        if ids[m as int] == id {
            assert(ids.take(n as int)[m as int] == id);
            if k != i {
                assert(state.examples[k].id == state.examples[i].id);
            }
        } else if ids.take(n as int).contains(id) {
            let a = choose|a: int| 0 <= a < n && ids.take(n as int)[a] == id;
            assert(ids.take(m as int)[a] == id);
        }
    }
}

proof fn lemma_stored_keeps_ids(
    cache: Map<(Seq<char>, Seq<char>, Split), ExampleRunView>,
    state: CachedEvaluationView,
    evaluated: CandidateEvaluationView,
    n: nat,
)
    requires
        keeps_ids(cache),
        distinct_ids(state.examples),
        n <= in_order(evaluated.evaluations.dom()).len(),
        forall|at: int|
            0 <= at < in_order(evaluated.evaluations.dom()).len() ==> {
                let id = #[trigger] in_order(evaluated.evaluations.dom())[at];
                &&& evaluated.evaluations[id].example_id == id
                &&& exists|k: int|
                    0 <= k < state.examples.len() && (#[trigger] state.examples[k]).id == id
            },
    ensures
        keeps_ids(stored(cache, state, evaluated, n)),
    decreases n,
{
    if n > 0 {
        let m = (n - 1) as nat;
        lemma_stored_keeps_ids(cache, state, evaluated, m);
        let id = in_order(evaluated.evaluations.dom())[m as int];
        let k = choose|k: int|
            0 <= k < state.examples.len() && (#[trigger] state.examples[k]).id == id;
        lemma_example_with_id(state.examples, k);
    }
}

/// The evaluation that a first candidate got, and the cache after it.
pub open spec fn first_evaluation(
    cache: Map<(Seq<char>, Seq<char>, Split), ExampleRunView>,
    candidate: CandidateView,
    examples: Seq<HarnessExampleView>,
    evaluated: CandidateEvaluationView,
) -> (CandidateEvaluationView, Map<(Seq<char>, Seq<char>, Split), ExampleRunView>) {
    let cached = found(cache, fingerprint(candidate), examples);
    let state = looked_up(evaluation_start(candidate, examples), cached);
    if missed(examples, cached).len() == 0 {
        (hits(candidate, cached), cache)
    } else {
        (
            merged(hits(candidate, cached), evaluated),
            stored(
                cache,
                state,
                evaluated,
                in_order(evaluated.evaluations.dom()).len(),
            ),
        )
    }
}

/// A second evaluation gives back what a first one stored. The first looks up the examples in a
/// cache and evaluates the others; it ends with a result of each, and stores what it evaluated.
/// Then the evaluation of a candidate with the same fingerprint finds every example in the cache:
/// it records a hit without calls of each, evaluates nothing, and ends with the results of the
/// first.
pub proof fn stored_evaluations_are_found_again(
    cache: Map<(Seq<char>, Seq<char>, Split), ExampleRunView>,
    first: CandidateView,
    second: CandidateView,
    examples: Seq<HarnessExampleView>,
    evaluated: CandidateEvaluationView,
)
    requires
        examples.len() <= usize::MAX,
        distinct_ids(examples),
        keeps_ids(cache),
        fingerprint(first) == fingerprint(second),
        answers_all(evaluated, missed(examples, found(cache, fingerprint(first), examples))),
    ensures
        ({
            let before = found(cache, fingerprint(first), examples);
            let state = looked_up(evaluation_start(first, examples), before);
            let missing = missed(examples, before);
            let (evaluation, after) = first_evaluation(cache, first, examples, evaluated);
            let again = found(after, fingerprint(second), examples);
            let end = looked_up(evaluation_start(second, examples), again);
            &&& if missing.len() == 0 {
                state.ask().1 == EvaluationActionView::Finish(evaluation)
            } else {
                &&& state.ask().1 == (EvaluationActionView::Evaluate {
                    candidate: first,
                    examples: missing,
                })
                &&& kept(state, evaluated, in_order(evaluated.evaluations.dom()).len()).1
                    == EvaluationActionView::Finish(evaluation)
            }
            &&& keeps_ids(after)
            &&& forall|i: int| 0 <= i < examples.len() ==> (#[trigger] again[i]) is Some
            &&& end.ask().1 == EvaluationActionView::Finish(hits(second, again))
            &&& hits(second, again).candidate == second
            &&& hits(second, again).evaluations == evaluation.evaluations
            &&& forall|id: Seq<char>| #[trigger]
                hits(second, again).metric_calls.contains_key(id) ==> hits(
                    second,
                    again,
                ).metric_calls[id] == 0
            &&& forall|i: int|
                0 <= i < examples.len() ==> (looked_up(
                    evaluation_start(second, examples),
                    #[trigger] again.take(i),
                ).after(
                    EvaluationEventView::Cached(again[i]),
                ).1 matches EvaluationActionView::Record(record) && record.cache_hit
                    && record.metric_calls == 0)
        }),
{
    let fp = fingerprint(first);
    let before = found(cache, fp, examples);
    let state = looked_up(evaluation_start(first, examples), before);
    let missing = missed(examples, before);
    let (evaluation, after) = first_evaluation(cache, first, examples, evaluated);
    let again = found(after, fp, examples);
    let results = evaluated.evaluations;
    let ids = in_order(results.dom());
    only_misses_are_evaluated(first, examples, before);
    only_misses_are_evaluated(second, examples, again);
    lemma_missed(examples, before);
    lemma_missed(examples, again);
    assert forall|i: int| 0 <= i < before.len() && (#[trigger] before[i]) is Some implies before[i]
        ->0.result.example_id == examples[i].id by {
        assert(cache.contains_key(place(fp, examples[i])));
    }
    lemma_hits(first, examples, before);
    if missing.len() > 0 {
        assert(state.ask().0 == state);
        assert(state.stage is Evaluating);
        assert forall|at: int| 0 <= at < ids.len() implies {
            let id = #[trigger] ids[at];
            &&& results[id].example_id == id
            &&& exists|k: int|
                0 <= k < state.examples.len() && (#[trigger] state.examples[k]).id == id
        } by {
            assert(ids.contains(ids[at]));
            assert(results.contains_key(ids[at]));
            let j = choose|j: int|
                0 <= j < missing.len() && (#[trigger] missing[j]).id == ids[at];
            let i = choose|i: int|
                0 <= i < before.len() && (#[trigger] before[i]) is None && examples[i]
                    == missing[j];
            assert(state.examples[i].id == ids[at]);
        }
        assert forall|at: int| 0 <= at < ids.len() implies (#[trigger] state.run_at(
            evaluated,
            at,
        )) is Some by {
            let k = choose|k: int|
                0 <= k < state.examples.len() && (#[trigger] state.examples[k]).id == ids[at];
            lemma_example_with_id(state.examples, k);
        }
        evaluated_runs_are_stored(state, evaluated, ids.len());
        lemma_stored_keeps_ids(cache, state, evaluated, ids.len());
    }
    assert forall|i: int| 0 <= i < examples.len() implies {
        &&& (#[trigger] again[i]) is Some
        &&& again[i]->0.result.example_id == examples[i].id
        &&& evaluation.evaluations.contains_key(examples[i].id)
        &&& again[i]->0.result == evaluation.evaluations[examples[i].id]
    } by {
        let id = examples[i].id;
        if missing.len() > 0 {
            lemma_stored(cache, state, evaluated, ids.len(), i);
            assert(ids.take(ids.len() as int) =~= ids);
            assert(ids.contains(id) <==> results.contains_key(id));
            if before[i] is None {
                assert(missing.contains(examples[i]));
                let j = choose|j: int| 0 <= j < missing.len() && missing[j] == examples[i];
                assert(results.contains_key(missing[j].id));
            } else if results.contains_key(id) {
                let j = choose|j: int| 0 <= j < missing.len() && (#[trigger] missing[j]).id == id;
                let k = choose|k: int|
                    0 <= k < before.len() && (#[trigger] before[k]) is None && examples[k]
                        == missing[j];
                assert(examples[k].id == examples[i].id);
                assert(k == i);
            }
        } else {
            if before[i] is None {
                assert(missing.contains(examples[i]));
            }
        }
    }
    lemma_hits(second, examples, again);
    let gone = missed(examples, again);
    if gone.len() > 0 {
        let i = choose|i: int|
            0 <= i < again.len() && (#[trigger] again[i]) is None && examples[i] == gone[0];
        assert(again[i] is Some);
    }
    let same = hits(second, again).evaluations;
    assert forall|k: Seq<char>| same.contains_key(k) <==> evaluation.evaluations.contains_key(
        k,
    ) by {
        if same.contains_key(k) {
            let i = choose|i: int|
                0 <= i < again.len() && (#[trigger] again[i]) is Some && examples[i].id == k;
            assert(evaluation.evaluations.contains_key(examples[i].id));
        }
        if evaluation.evaluations.contains_key(k) {
            if missing.len() > 0 && results.contains_key(k) {
                let j = choose|j: int| 0 <= j < missing.len() && (#[trigger] missing[j]).id == k;
                let i = choose|i: int|
                    0 <= i < before.len() && (#[trigger] before[i]) is None && examples[i]
                        == missing[j];
                assert(again[i] is Some);
            } else {
                let i = choose|i: int|
                    0 <= i < before.len() && (#[trigger] before[i]) is Some && examples[i].id == k;
                assert(again[i] is Some);
            }
        }
    }
    assert forall|k: Seq<char>| same.contains_key(k) implies same[k]
        == evaluation.evaluations[k] by {
        let i = choose|i: int|
            0 <= i < again.len() && (#[trigger] again[i]) is Some && examples[i].id == k;
        assert(again[i] is Some);
    }
    assert(same =~= evaluation.evaluations);
    assert forall|id: Seq<char>| #[trigger]
        hits(second, again).metric_calls.contains_key(id) implies hits(
        second,
        again,
    ).metric_calls[id] == 0 by {
        hits_cost_nothing(second, again, id);
    }
    assert forall|i: int| 0 <= i < examples.len() implies (looked_up(
        evaluation_start(second, examples),
        #[trigger] again.take(i),
    ).after(EvaluationEventView::Cached(again[i])).1 matches EvaluationActionView::Record(record)
        && record.cache_hit && record.metric_calls == 0) by {
        only_misses_are_evaluated(second, examples, again.take(i));
        assert(again[i] is Some);
    }
}

} // verus!
