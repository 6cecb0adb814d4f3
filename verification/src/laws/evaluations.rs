//! Laws of evaluations: how runs are gathered, kept and read back.

use vstd::prelude::*;

use crate::evaluation::{
    all_runs, cached_run, collected, example_context, example_with_id, merged, timed_out,
    CachedEvaluationView, EvaluationActionView, EvaluationEventView,
};
use crate::json::JsonView;
use crate::model::{
    CandidateEvaluationView, CandidateRecordView, CandidateView, EvaluationRecordView,
    ExampleRunView, HarnessExampleView, HarnessOptErrorView, OptimizationConfigView,
    OptimizationRunView, StoreStatsView,
};
use crate::score::Score;
use crate::state::{
    candidates_by_id, evaluated_by_id, evaluated_candidates, same_settings, state_of,
};
use crate::string_map::{enumerates, in_order, lemma_enumeration_unique, strictly_sorted};
use crate::text::decimal;

verus! {

/// The runs that are gathered are all of them, in their order, exactly where none of them failed;
/// otherwise the first failure is the failure of the whole.
pub proof fn the_first_failure_is_the_failure_of_the_whole(
    outcomes: Seq<Result<ExampleRunView, HarnessOptErrorView>>,
    runs: Seq<ExampleRunView>,
    at: int,
)
    ensures
        (outcomes.len() == runs.len() && forall|i: int|
            0 <= i < runs.len() ==> #[trigger] outcomes[i] == Ok::<
                ExampleRunView,
                HarnessOptErrorView,
            >(runs[i])) ==> all_runs(outcomes) == Ok::<Seq<ExampleRunView>, HarnessOptErrorView>(
            runs,
        ),
        (0 <= at < outcomes.len() && outcomes[at] is Err && forall|i: int|
            0 <= i < at ==> (#[trigger] outcomes[i]) is Ok) ==> all_runs(outcomes) == Err::<
            Seq<ExampleRunView>,
            HarnessOptErrorView,
        >(outcomes[at]->Err_0),
    decreases outcomes.len(),
{
    if outcomes.len() == 0 {
        assert(runs.len() == 0 ==> runs =~= Seq::empty());
    } else {
        let before = outcomes.drop_last();
        if runs.len() == outcomes.len() {
            the_first_failure_is_the_failure_of_the_whole(before, runs.drop_last(), at);
            assert(runs =~= runs.drop_last().push(runs.last()));
            if forall|i: int|
                0 <= i < runs.len() ==> #[trigger] outcomes[i] == Ok::<
                    ExampleRunView,
                    HarnessOptErrorView,
                >(runs[i]) {
                assert forall|i: int| 0 <= i < before.len() implies #[trigger] before[i] == Ok::<
                    ExampleRunView,
                    HarnessOptErrorView,
                >(runs.drop_last()[i]) by {
                    assert(before[i] == outcomes[i]);
                }
                assert(outcomes[outcomes.len() - 1] is Ok);
            }
        } else {
            the_first_failure_is_the_failure_of_the_whole(before, runs, at);
        }
        if 0 <= at < outcomes.len() && outcomes[at] is Err && forall|i: int|
            0 <= i < at ==> (#[trigger] outcomes[i]) is Ok {
            if at == outcomes.len() - 1 {
                let oks = Seq::new(before.len(), |i: int| before[i]->Ok_0);
                assert forall|i: int| 0 <= i < before.len() implies #[trigger] before[i] == Ok::<
                    ExampleRunView,
                    HarnessOptErrorView,
                >(oks[i]) by {
                    assert(outcomes[i] is Ok);
                    assert(before[i] == outcomes[i]);
                }
                the_first_failure_is_the_failure_of_the_whole(before, oks, at);
            } else {
                assert(before[at] == outcomes[at]);
                assert forall|i: int| 0 <= i < at implies (#[trigger] before[i]) is Ok by {
                    assert(before[i] == outcomes[i]);
                }
            }
        }
    }
}

/// Of the runs of an example the last one counts: its result, its artifacts and its calls, and its
/// trace where it has one.
pub proof fn the_last_run_of_an_example_counts(
    candidate: CandidateView,
    runs: Seq<ExampleRunView>,
    at: int,
)
    requires
        0 <= at < runs.len(),
        forall|j: int|
            at < j < runs.len() ==> (#[trigger] runs[j]).result.example_id
                != runs[at].result.example_id,
    ensures
        ({
            let id = runs[at].result.example_id;
            let all = collected(candidate, runs);
            &&& all.candidate == candidate
            &&& all.evaluations.contains_key(id)
            &&& all.evaluations[id] == runs[at].result
            &&& all.artifacts.contains_key(id)
            &&& all.artifacts[id] == runs[at].artifacts
            &&& all.metric_calls.contains_key(id)
            &&& all.metric_calls[id] == runs[at].metric_calls
            &&& runs[at].trace matches Some(trace) ==> all.traces.contains_key(id)
                && all.traces[id] == trace
        }),
    decreases runs.len(),
{
    lemma_collected_candidate(candidate, runs);
    if at < runs.len() - 1 {
        let before = runs.drop_last();
        assert(before[at] == runs[at]);
        assert forall|j: int| at < j < before.len() implies (#[trigger] before[j]).result.example_id
            != before[at].result.example_id by {
            assert(before[j] == runs[j]);
        }
        assert(runs[runs.len() - 1].result.example_id != runs[at].result.example_id);
        the_last_run_of_an_example_counts(candidate, before, at);
    } else {
        lemma_collected_candidate(candidate, runs.drop_last());
    }
}

proof fn lemma_collected_candidate(candidate: CandidateView, runs: Seq<ExampleRunView>)
    ensures
        collected(candidate, runs).candidate == candidate,
    decreases runs.len(),
{
    if runs.len() > 0 {
        lemma_collected_candidate(candidate, runs.drop_last());
    }
}

/// An example without a run has nothing.
pub proof fn nothing_is_gathered_of_other_examples(
    candidate: CandidateView,
    runs: Seq<ExampleRunView>,
    id: Seq<char>,
)
    requires
        forall|j: int| 0 <= j < runs.len() ==> (#[trigger] runs[j]).result.example_id != id,
    ensures
        ({
            let all = collected(candidate, runs);
            &&& !all.evaluations.contains_key(id)
            &&& !all.traces.contains_key(id)
            &&& !all.artifacts.contains_key(id)
            &&& !all.metric_calls.contains_key(id)
        }),
    decreases runs.len(),
{
    if runs.len() > 0 {
        let before = runs.drop_last();
        assert forall|j: int| 0 <= j < before.len() implies (#[trigger] before[j]).result.example_id
            != id by {
            assert(before[j] == runs[j]);
        }
        assert(runs[runs.len() - 1].result.example_id != id);
        nothing_is_gathered_of_other_examples(candidate, before, id);
    }
}

/// A run from the cache is taken over as it is, at no cost. What was evaluated anew counts before
/// what was there, and what was there stays where nothing was evaluated anew.
pub proof fn what_is_new_counts_before_what_was_there(
    run: ExampleRunView,
    old_part: CandidateEvaluationView,
    new_part: CandidateEvaluationView,
    id: Seq<char>,
)
    ensures
        cached_run(run).example == run.example,
        cached_run(run).result == run.result,
        cached_run(run).trace == run.trace,
        cached_run(run).artifacts == run.artifacts,
        cached_run(run).metric_calls == 0,
        ({
            let all = merged(old_part, new_part);
            &&& all.candidate == old_part.candidate
            &&& all.evaluations.contains_key(id) <==> old_part.evaluations.contains_key(id)
                || new_part.evaluations.contains_key(id)
            &&& new_part.evaluations.contains_key(id) ==> all.evaluations[id]
                == new_part.evaluations[id]
            &&& old_part.evaluations.contains_key(id) && !new_part.evaluations.contains_key(id)
                ==> all.evaluations[id] == old_part.evaluations[id]
            &&& new_part.traces.contains_key(id) ==> all.traces.contains_key(id) && all.traces[id]
                == new_part.traces[id]
            &&& old_part.traces.contains_key(id) && !new_part.traces.contains_key(id)
                ==> all.traces.contains_key(id) && all.traces[id] == old_part.traces[id]
            &&& new_part.artifacts.contains_key(id) ==> all.artifacts.contains_key(id)
                && all.artifacts[id] == new_part.artifacts[id]
            &&& old_part.artifacts.contains_key(id) && !new_part.artifacts.contains_key(id)
                ==> all.artifacts.contains_key(id) && all.artifacts[id] == old_part.artifacts[id]
            &&& new_part.metric_calls.contains_key(id) ==> all.metric_calls.contains_key(id)
                && all.metric_calls[id] == new_part.metric_calls[id]
            &&& old_part.metric_calls.contains_key(id) && !new_part.metric_calls.contains_key(id)
                ==> all.metric_calls.contains_key(id) && all.metric_calls[id]
                == old_part.metric_calls[id]
        }),
{
}

/// An example that the cache has is recorded as a hit and not evaluated; one that it does not have
/// is asked for with the others that it does not have, once all have been looked up.
pub proof fn examples_are_looked_up_one_by_one(
    state: CachedEvaluationView,
    run: ExampleRunView,
)
    requires
        state.stage is LookingUp,
        state.next < state.examples.len() <= usize::MAX,
        state.evaluation.candidate == state.candidate,
    ensures
        ({
            let id = run.result.example_id;
            let (hit, a) = state.after(EvaluationEventView::Cached(Some(run)));
            let (past, b) = hit.after(EvaluationEventView::Recorded);
            &&& a matches EvaluationActionView::Record(record)
            &&& record.cache_hit
            &&& record.metric_calls == 0
            &&& record.candidate_id == state.candidate.id
            &&& record.candidate_fingerprint == state.fingerprint
            &&& record.example_id == id
            &&& record.score == run.result.score
            &&& hit.evaluation.evaluations.contains_key(id)
            &&& hit.evaluation.evaluations[id] == run.result
            &&& hit.evaluation.metric_calls[id] == 0
            &&& past.misses == state.misses
            &&& past.next == state.next + 1
        }),
        ({
            let (past, b) = state.after(EvaluationEventView::Cached(None));
            &&& past.evaluation == state.evaluation
            &&& past.misses == state.misses.push(state.examples[state.next as int])
            &&& past.next == state.next + 1
            &&& state.next + 1 < state.examples.len() ==> b == (EvaluationActionView::LookUp {
                fingerprint: state.fingerprint,
                example: state.examples[state.next + 1],
            })
            &&& state.next + 1 == state.examples.len() ==> b == (EvaluationActionView::Evaluate {
                candidate: state.candidate,
                examples: state.misses.push(state.examples[state.next as int]),
            })
        }),
{
}

/// What was evaluated is stored and recorded under its example, in the order of the ids: the run
/// with its result and the calls that it took, one where they are not known.
pub proof fn misses_are_stored_and_recorded(
    state: CachedEvaluationView,
    evaluated: CandidateEvaluationView,
    ids: Seq<Seq<char>>,
    at: int,
)
    requires
        enumerates(ids, evaluated.evaluations.dom()),
        ids.len() > 0,
        ids.len() <= usize::MAX,
        state.stage is Evaluating,
        0 <= at < state.examples.len(),
        state.examples[at].id == ids[0],
        forall|i: int| 0 <= i < at ==> (#[trigger] state.examples[i]).id != ids[0],
    ensures
        ({
            let (storing, a) = state.after(EvaluationEventView::Evaluated(evaluated));
            let (recording, b) = storing.after(EvaluationEventView::Stored);
            &&& a matches EvaluationActionView::Store { fingerprint, run }
            &&& fingerprint == state.fingerprint
            &&& run.example == state.examples[at]
            &&& run.result == evaluated.evaluations[ids[0]]
            &&& evaluated.metric_calls.contains_key(ids[0]) ==> run.metric_calls
                == evaluated.metric_calls[ids[0]]
            &&& !evaluated.metric_calls.contains_key(ids[0]) ==> run.metric_calls == 1
            &&& b matches EvaluationActionView::Record(record)
            &&& !record.cache_hit
            &&& record.metric_calls >= 1
            &&& record.score == evaluated.evaluations[ids[0]].score
            &&& record.candidate_id == state.candidate.id
            &&& record.candidate_fingerprint == state.fingerprint
        }),
{
    let dom = evaluated.evaluations.dom();
    lemma_enumeration_unique(ids, in_order(dom), dom);
    lemma_example(state.examples, at);
}

proof fn lemma_example(examples: Seq<HarnessExampleView>, at: int)
    requires
        0 <= at < examples.len(),
        forall|i: int| 0 <= i < at ==> (#[trigger] examples[i]).id != examples[at].id,
    ensures
        example_with_id(examples, examples[at].id) == Some(examples[at]),
    decreases at,
{
    if at > 0 {
        let rest = examples.drop_first();
        assert(examples[0].id != examples[at].id);
        assert(rest[at - 1] == examples[at]);
        assert forall|i: int| 0 <= i < at - 1 implies (#[trigger] rest[i]).id
            != rest[at - 1].id by {
            assert(rest[i] == examples[i + 1]);
        }
        lemma_example(rest, at - 1);
    }
}

/// An evaluation that takes too long has failed: the score is zero, one call was made, and the
/// feedback and the diagnostics say after how many seconds.
pub proof fn late_examples_have_failed(example: HarnessExampleView, secs: u64)
    ensures
        ({
            let run = timed_out(example, secs);
            &&& run.example == example
            &&& run.result.example_id == example.id
            &&& run.result.split == example.split
            &&& run.result.score.bits == 0
            &&& run.result.passed == Some(false)
            &&& run.result.feedback == Some(
                "TIMEOUT: agent did not complete within "@ + decimal(secs as nat) + "s"@,
            )
            &&& run.result.diagnostics.contains_key("turn_outcome"@)
            &&& run.result.diagnostics["turn_outcome"@] == JsonView::Text("timeout"@)
            &&& run.result.diagnostics.contains_key("timeout_secs"@)
            &&& run.result.diagnostics["timeout_secs"@] matches JsonView::Number(n)
            &&& n.unsigned == Some(secs)
            &&& n.text == decimal(secs as nat)
            &&& run.trace is None
            &&& run.metric_calls == 1
        }),
{
    reveal_strlit("turn_outcome");
    reveal_strlit("timeout_secs");
    assert("turn_outcome"@[1] == 'u' && "timeout_secs"@[1] == 'i');
}

/// The context of an evaluation names the run, the experiment, the candidate, its parent, the
/// example and its split; contexts are the same only where all of these are.
pub proof fn contexts_name_what_is_evaluated(
    run: OptimizationRunView,
    candidate: CandidateView,
    example: HarnessExampleView,
    other_run: OptimizationRunView,
    other_candidate: CandidateView,
    other_example: HarnessExampleView,
)
    requires
        example_context(run, candidate, example) == example_context(
            other_run,
            other_candidate,
            other_example,
        ),
    ensures
        run.run_id == other_run.run_id,
        run.experiment_id == other_run.experiment_id,
        candidate.id == other_candidate.id,
        candidate.parent_id == other_candidate.parent_id,
        example.id == other_example.id,
        example.split == other_example.split,
{
    crate::state::split_names_are_distinct(example.split, other_example.split);
}

/// The candidates of a run are listed once each, in the order of their ids, as they were last
/// recorded. Of the recorded evaluations of a candidate on an example the last one counts, and the
/// example is passed exactly where its score is not below the perfect score.
pub proof fn candidates_are_read_back_with_their_last_records(
    run: OptimizationRunView,
    candidates: Seq<CandidateRecordView>,
    evaluations: Seq<EvaluationRecordView>,
    ids: Seq<Seq<char>>,
    place: int,
    at: int,
    last: int,
)
    requires
        strictly_sorted(ids),
        forall|id: Seq<char>| #[trigger]
            ids.contains(id) <==> exists|i: int|
                0 <= i < candidates.len() && (#[trigger] candidates[i]).candidate.id == id,
        0 <= place < ids.len(),
        0 <= at < candidates.len(),
        candidates[at].candidate.id == ids[place],
        forall|j: int|
            at < j < candidates.len() ==> (#[trigger] candidates[j]).candidate.id != ids[place],
    ensures
        ({
            let all = evaluated_candidates(run, candidates, evaluations);
            &&& all.len() == ids.len()
            &&& all[place].candidate == candidates[at].candidate
            &&& 0 <= last < evaluations.len() && evaluations[last].candidate_id == ids[place] && (
            forall|j: int|
                last < j < evaluations.len() ==> !((#[trigger] evaluations[j]).candidate_id
                    == ids[place] && evaluations[j].example_id == evaluations[last].example_id))
                ==> {
                let record = evaluations[last];
                let id = record.example_id;
                &&& all[place].evaluations.contains_key(id)
                &&& all[place].evaluations[id].example_id == id
                &&& all[place].evaluations[id].split == record.split
                &&& all[place].evaluations[id].score == record.score
                &&& all[place].evaluations[id].feedback == record.feedback
                &&& all[place].evaluations[id].metrics == record.metrics
                &&& all[place].evaluations[id].diagnostics == record.diagnostics
                &&& all[place].evaluations[id].passed == Some(
                    !record.score.nan() && !run.config.perfect_score.nan() && !record.score.lt(
                        run.config.perfect_score,
                    ),
                )
                &&& all[place].artifacts.contains_key(id)
                &&& all[place].artifacts[id] == record.artifacts
                &&& all[place].metric_calls.contains_key(id)
                &&& all[place].metric_calls[id] == record.metric_calls
                &&& record.trace matches Some(trace) ==> all[place].traces.contains_key(id)
                    && all[place].traces[id] == trace
            }
        }),
{
    let by_id = candidates_by_id(candidates);
    let perfect = run.config.perfect_score;
    let map = evaluated_by_id(by_id, evaluations, perfect);
    lemma_candidates(candidates, ids[place], at);
    crate::state::latest_records_count(
        candidates,
        evaluations,
        perfect,
        ids[place],
        evaluations[last].example_id,
    );
    assert(enumerates(ids, map.dom())) by {
        assert forall|id: Seq<char>| #[trigger] ids.contains(id) <==> map.dom().contains(id) by {
            lemma_candidate_ids(candidates, id);
            assert(map.dom().contains(id) <==> by_id.dom().contains(id));
        }
    }
    lemma_enumeration_unique(ids, in_order(map.dom()), map.dom());
    if 0 <= last < evaluations.len() && evaluations[last].candidate_id == ids[place] && (forall|
        j: int,
    |
        last < j < evaluations.len() ==> !((#[trigger] evaluations[j]).candidate_id == ids[place]
            && evaluations[j].example_id == evaluations[last].example_id)) {
        lemma_latest(evaluations, last);
        if evaluations[last].trace is Some {
            lemma_traces(by_id, evaluations, perfect, last);
        }
    }
}

proof fn lemma_candidates(candidates: Seq<CandidateRecordView>, id: Seq<char>, at: int)
    requires
        0 <= at < candidates.len(),
        candidates[at].candidate.id == id,
        forall|j: int|
            at < j < candidates.len() ==> (#[trigger] candidates[j]).candidate.id != id,
    ensures
        candidates_by_id(candidates).contains_key(id),
        candidates_by_id(candidates)[id].candidate == candidates[at].candidate,
    decreases candidates.len(),
{
    if at < candidates.len() - 1 {
        let before = candidates.drop_last();
        assert(before[at] == candidates[at]);
        assert forall|j: int| at < j < before.len() implies (#[trigger] before[j]).candidate.id
            != id by {
            assert(before[j] == candidates[j]);
        }
        assert(candidates[candidates.len() - 1].candidate.id != id);
        lemma_candidates(before, id, at);
    }
}

proof fn lemma_candidate_ids(candidates: Seq<CandidateRecordView>, id: Seq<char>)
    ensures
        candidates_by_id(candidates).contains_key(id) <==> exists|i: int|
            0 <= i < candidates.len() && (#[trigger] candidates[i]).candidate.id == id,
    decreases candidates.len(),
{
    if candidates.len() > 0 {
        let before = candidates.drop_last();
        lemma_candidate_ids(before, id);
        if candidates_by_id(before).contains_key(id) {
            let i = choose|i: int|
                0 <= i < before.len() && (#[trigger] before[i]).candidate.id == id;
            assert(candidates[i].candidate.id == id);
        }
        if exists|i: int|
            0 <= i < candidates.len() && (#[trigger] candidates[i]).candidate.id == id {
            let i = choose|i: int|
                0 <= i < candidates.len() && (#[trigger] candidates[i]).candidate.id == id;
            if i < before.len() {
                assert(before[i].candidate.id == id);
            }
        }
        assert(candidates[candidates.len() - 1] == candidates.last());
    }
}

proof fn lemma_latest(records: Seq<EvaluationRecordView>, last: int)
    requires
        0 <= last < records.len(),
        forall|j: int|
            last < j < records.len() ==> !((#[trigger] records[j]).candidate_id
                == records[last].candidate_id && records[j].example_id
                == records[last].example_id),
    ensures
        crate::state::latest(records, records[last].candidate_id, records[last].example_id)
            == Some(records[last]),
    decreases records.len(),
{
    if last < records.len() - 1 {
        let before = records.drop_last();
        assert(before[last] == records[last]);
        assert forall|j: int| last < j < before.len() implies !((#[trigger] before[j]).candidate_id
            == before[last].candidate_id && before[j].example_id == before[last].example_id) by {
            assert(before[j] == records[j]);
        }
        let end = records[records.len() - 1];
        assert(!(end.candidate_id == records[last].candidate_id && end.example_id
            == records[last].example_id));
        lemma_latest(before, last);
    }
}

proof fn lemma_traces(
    by_id: Map<Seq<char>, CandidateEvaluationView>,
    records: Seq<EvaluationRecordView>,
    perfect: Score,
    last: int,
)
    requires
        0 <= last < records.len(),
        by_id.contains_key(records[last].candidate_id),
        records[last].trace is Some,
        forall|j: int|
            last < j < records.len() ==> !((#[trigger] records[j]).candidate_id
                == records[last].candidate_id && records[j].example_id
                == records[last].example_id),
    ensures
        ({
            let record = records[last];
            let all = evaluated_by_id(by_id, records, perfect);
            &&& all.contains_key(record.candidate_id)
            &&& all[record.candidate_id].traces.contains_key(record.example_id)
            &&& all[record.candidate_id].traces[record.example_id] == record.trace->0
        }),
    decreases records.len(),
{
    let before = records.drop_last();
    if last < records.len() - 1 {
        assert(before[last] == records[last]);
        assert forall|j: int| last < j < before.len() implies !((#[trigger] before[j]).candidate_id
            == before[last].candidate_id && before[j].example_id == before[last].example_id) by {
            assert(before[j] == records[j]);
        }
        let end = records[records.len() - 1];
        assert(!(end.candidate_id == records[last].candidate_id && end.example_id
            == records[last].example_id));
        lemma_traces(by_id, before, perfect, last);
    } else {
        lemma_keeps(by_id, before, perfect, records[last].candidate_id);
    }
}

proof fn lemma_keeps(
    by_id: Map<Seq<char>, CandidateEvaluationView>,
    records: Seq<EvaluationRecordView>,
    perfect: Score,
    id: Seq<char>,
)
    requires
        by_id.contains_key(id),
    ensures
        evaluated_by_id(by_id, records, perfect).contains_key(id),
    decreases records.len(),
{
    if records.len() > 0 {
        lemma_keeps(by_id, records.drop_last(), perfect, id);
    }
}

/// The state of a run has the counts of the store, and names the best candidate by its id.
pub proof fn states_have_the_counts_of_the_store(
    run: OptimizationRunView,
    evaluated: Seq<CandidateEvaluationView>,
    best: Option<usize>,
    stats: StoreStatsView,
)
    ensures
        ({
            let state = state_of(run, evaluated, best, stats);
            &&& state.run == run
            &&& state.evaluated_candidates == evaluated
            &&& state.metric_calls_used == stats.metric_calls_used
            &&& state.cache_hits == stats.cache_hits
            &&& state.cache_misses == stats.cache_misses
            &&& state.accepted_proposals == stats.accepted_proposals
            &&& state.rejected_proposals == stats.rejected_proposals
            &&& best is None ==> state.best_candidate_id is None
            &&& best is Some && best->0 < evaluated.len() ==> state.best_candidate_id == Some(
                evaluated[best->0 as int].candidate.id,
            )
            &&& best is Some && best->0 >= evaluated.len() ==> state.best_candidate_id is None
        }),
{
}

/// Settings agree exactly where each of them is the same: a store made with one other setting is
/// not gone on with.
pub proof fn settings_agree_where_all_are_the_same(
    a: OptimizationConfigView,
    b: OptimizationConfigView,
)
    ensures
        same_settings(a, b) ==> a == (OptimizationConfigView {
            perfect_score: a.perfect_score,
            ..b
        }) && !a.perfect_score.lt(b.perfect_score) && !b.perfect_score.lt(a.perfect_score),
        same_settings(a, a) <==> !a.perfect_score.nan(),
{
}

} // verus!
