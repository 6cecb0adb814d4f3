//! The state of a run, put together from what its store holds.

use vstd::prelude::*;
use vstd::string::*;

use crate::model::{
    entry, unevaluated, CandidateEvaluation, CandidateEvaluationView, CandidateRecord,
    CandidateRecordView, EvaluationRecord, EvaluationRecordView, EvaluationResult,
    EvaluationResultView, HarnessOptError, HarnessOptErrorView, OptimizationConfig,
    OptimizationConfigView, OptimizationRun, OptimizationRunView, OptimizationState,
    OptimizationStateView, Split, StoreStats, StoreStatsView,
};
use crate::score::Score;
use crate::string_map::{in_order, StringMap};
use crate::text::same_text;
use crate::views::{lemma_take_next, lemma_views_push, views, Duplicate};

verus! {

/// The candidates of the records, by id; of two records of one candidate the later counts.
pub open spec fn candidates_by_id(records: Seq<CandidateRecordView>) -> Map<
    Seq<char>,
    CandidateEvaluationView,
>
    decreases records.len(),
{
    if records.len() == 0 {
        Map::empty()
    } else {
        candidates_by_id(records.drop_last()).insert(
            records.last().candidate.id,
            unevaluated(records.last().candidate),
        )
    }
}

/// The result that a record holds. It passed where its score is perfect.
pub open spec fn recorded_result(
    record: EvaluationRecordView,
    perfect: Score,
) -> EvaluationResultView {
    EvaluationResultView {
        example_id: record.example_id,
        split: record.split,
        score: record.score,
        passed: Some(record.score.ge(perfect)),
        feedback: record.feedback,
        metrics: record.metrics,
        diagnostics: record.diagnostics,
    }
}

/// The evaluation with what a record holds.
pub open spec fn with_record(
    evaluation: CandidateEvaluationView,
    record: EvaluationRecordView,
    perfect: Score,
) -> CandidateEvaluationView {
    let id = record.example_id;
    CandidateEvaluationView {
        candidate: evaluation.candidate,
        evaluations: evaluation.evaluations.insert(id, recorded_result(record, perfect)),
        traces: match record.trace {
            Some(trace) => evaluation.traces.insert(id, trace),
            None => evaluation.traces,
        },
        artifacts: evaluation.artifacts.insert(id, record.artifacts),
        metric_calls: evaluation.metric_calls.insert(id, record.metric_calls),
    }
}

/// The candidates with their recorded evaluations, by id. Evaluations of other candidates do not
/// count.
pub open spec fn evaluated_by_id(
    candidates: Map<Seq<char>, CandidateEvaluationView>,
    records: Seq<EvaluationRecordView>,
    perfect: Score,
) -> Map<Seq<char>, CandidateEvaluationView>
    decreases records.len(),
{
    if records.len() == 0 {
        candidates
    } else {
        let before = evaluated_by_id(candidates, records.drop_last(), perfect);
        let record = records.last();
        if before.contains_key(record.candidate_id) {
            before.insert(
                record.candidate_id,
                with_record(before[record.candidate_id], record, perfect),
            )
        } else {
            before
        }
    }
}

/// The values of a map in the order of its keys.
pub open spec fn values_in_order(
    map: Map<Seq<char>, CandidateEvaluationView>,
) -> Seq<CandidateEvaluationView> {
    let keys = in_order(map.dom());
    Seq::new(keys.len(), |i: int| map[keys[i]])
}

/// The candidates with their recorded evaluations, in the order of their ids.
pub open spec fn evaluated_candidates(
    run: OptimizationRunView,
    candidates: Seq<CandidateRecordView>,
    evaluations: Seq<EvaluationRecordView>,
) -> Seq<CandidateEvaluationView> {
    values_in_order(
        evaluated_by_id(candidates_by_id(candidates), evaluations, run.config.perfect_score),
    )
}

/// The last record of the evaluation of a candidate on an example.
pub open spec fn latest(
    records: Seq<EvaluationRecordView>,
    candidate_id: Seq<char>,
    example_id: Seq<char>,
) -> Option<EvaluationRecordView>
    decreases records.len(),
{
    if records.len() == 0 {
        None
    } else if records.last().candidate_id == candidate_id && records.last().example_id
        == example_id {
        Some(records.last())
    } else {
        latest(records.drop_last(), candidate_id, example_id)
    }
}

/// Recorded evaluations add no candidates and take none away, and what a candidate has of an
/// example is what the latest record says.
pub proof fn latest_records_count(
    candidates: Seq<CandidateRecordView>,
    records: Seq<EvaluationRecordView>,
    perfect: Score,
    candidate_id: Seq<char>,
    example_id: Seq<char>,
)
    requires
        candidates_by_id(candidates).contains_key(candidate_id),
    ensures
        ({
            let all = evaluated_by_id(candidates_by_id(candidates), records, perfect);
            let evaluation = all[candidate_id];
            &&& all.dom() == candidates_by_id(candidates).dom()
            &&& evaluation.candidate == candidates_by_id(candidates)[candidate_id].candidate
            &&& match latest(records, candidate_id, example_id) {
                Some(record) => {
                    &&& entry(evaluation.evaluations, example_id) == Some(
                        recorded_result(record, perfect),
                    )
                    &&& entry(evaluation.artifacts, example_id) == Some(record.artifacts)
                    &&& entry(evaluation.metric_calls, example_id) == Some(record.metric_calls)
                },
                None => {
                    &&& entry(evaluation.evaluations, example_id) is None
                    &&& entry(evaluation.artifacts, example_id) is None
                    &&& entry(evaluation.metric_calls, example_id) is None
                },
            }
        }),
    decreases records.len(),
{
    lemma_candidates_start_unevaluated(candidates, candidate_id);
    if records.len() > 0 {
        latest_records_count(
            candidates,
            records.drop_last(),
            perfect,
            candidate_id,
            example_id,
        );
        let before = evaluated_by_id(candidates_by_id(candidates), records.drop_last(), perfect);
        let after = evaluated_by_id(candidates_by_id(candidates), records, perfect);
        assert(after.dom() =~= before.dom());
    }
}

proof fn lemma_candidates_start_unevaluated(
    candidates: Seq<CandidateRecordView>,
    id: Seq<char>,
)
    requires
        candidates_by_id(candidates).contains_key(id),
    ensures
        candidates_by_id(candidates)[id] == unevaluated(candidates_by_id(candidates)[id].candidate),
        candidates_by_id(candidates)[id].candidate.id == id,
    decreases candidates.len(),
{
    if candidates.len() > 0 && candidates.last().candidate.id != id {
        lemma_candidates_start_unevaluated(candidates.drop_last(), id);
    }
}

fn add_record(evaluation: CandidateEvaluation, record: EvaluationRecord, perfect: Score) -> (r:
    CandidateEvaluation)
    ensures
        r@ == with_record(evaluation@, record@, perfect),
{
    let mut r: CandidateEvaluation = evaluation;
    let id: String = record.example_id.clone();
    let result = EvaluationResult {
        example_id: record.example_id,
        split: record.split,
        score: record.score,
        passed: Some(record.score.at_least(&perfect)),
        feedback: record.feedback,
        metrics: record.metrics,
        diagnostics: record.diagnostics,
    };
    r.evaluations.insert(id.clone(), result);
    if let Some(trace) = record.trace {
        r.traces.insert(id.clone(), trace);
    }
    r.artifacts.insert(id.clone(), record.artifacts);
    r.metric_calls.insert(id, record.metric_calls);
    r
}

/// Puts the recorded evaluations together with the candidates that they are of.
pub fn collect_candidates(
    run: &OptimizationRun,
    candidates: &[CandidateRecord],
    evaluations: &[EvaluationRecord],
) -> (r: Vec<CandidateEvaluation>)
    ensures
        views(r@) == evaluated_candidates(run@, views(candidates@), views(evaluations@)),
{
    let perfect: Score = run.config.perfect_score;
    let ghost all = views(candidates@);
    let ghost records = views(evaluations@);
    let mut by_id: StringMap<CandidateEvaluation> = StringMap::new();
    let mut i: usize = 0;
    while i < candidates.len()
        invariant
            i <= candidates@.len(),
            all == views(candidates@),
            by_id@ == candidates_by_id(all.take(i as int)),
        decreases candidates@.len() - i,
    {
        assert(all.take(i + 1).drop_last() =~= all.take(i as int));
        let candidate = candidates[i].candidate.duplicate();
        by_id.insert(candidates[i].candidate.id.clone(), CandidateEvaluation::new(candidate));
        i = i + 1;
    }
    assert(all.take(i as int) =~= all);
    let mut j: usize = 0;
    assert(records.take(0) =~= Seq::empty());
    while j < evaluations.len()
        invariant
            j <= evaluations@.len(),
            records == views(evaluations@),
            by_id@ == evaluated_by_id(candidates_by_id(all), records.take(j as int), perfect),
        decreases evaluations@.len() - j,
    {
        assert(records.take(j + 1).drop_last() =~= records.take(j as int));
        let record: EvaluationRecord = evaluations[j].duplicate();
        let ghost before = by_id@;
        let id: String = record.candidate_id.clone();
        match by_id.remove(id.as_str()) {
            Some(evaluation) => {
                by_id.insert(id, add_record(evaluation, record, perfect));
                assert(by_id@ =~= before.insert(id@, by_id@[id@]));
            },
            None => {
                assert(by_id@ =~= before);
            },
        }
        j = j + 1;
    }
    assert(records.take(j as int) =~= records);
    let n: usize = by_id.len();
    let ghost whole = values_in_order(by_id@);
    let mut r: Vec<CandidateEvaluation> = Vec::new();
    let mut k: usize = 0;
    assert(views(r@) =~= whole.take(0));
    while k < n
        invariant
            k <= n,
            n == whole.len(),
            whole == values_in_order(by_id@),
            views(r@) == whole.take(k as int),
        decreases n - k,
    {
        let evaluation: CandidateEvaluation = by_id.value_at(k).duplicate();
        proof {
            lemma_views_push(r@, evaluation);
            lemma_take_next(whole, k as int);
        }
        r.push(evaluation);
        k = k + 1;
    }
    assert(whole.take(k as int) =~= whole);
    r
}

/// The state of a run. `best` is the place of the best candidate among those evaluated.
pub open spec fn state_of(
    run: OptimizationRunView,
    evaluated: Seq<CandidateEvaluationView>,
    best: Option<usize>,
    stats: StoreStatsView,
) -> OptimizationStateView {
    OptimizationStateView {
        run,
        evaluated_candidates: evaluated,
        best_candidate_id: match best {
            Some(i) => if i < evaluated.len() {
                Some(evaluated[i as int].candidate.id)
            } else {
                None
            },
            None => None,
        },
        metric_calls_used: stats.metric_calls_used,
        cache_hits: stats.cache_hits,
        cache_misses: stats.cache_misses,
        accepted_proposals: stats.accepted_proposals,
        rejected_proposals: stats.rejected_proposals,
    }
}

/// Makes the state of a run. `best` is the place of the best candidate among those evaluated.
pub fn load_optimization_state(
    run: &OptimizationRun,
    evaluated: Vec<CandidateEvaluation>,
    best: Option<usize>,
    stats: &StoreStats,
) -> (r: OptimizationState)
    ensures
        r@ == state_of(run@, views(evaluated@), best, stats@),
{
    assert(views(evaluated@).len() == evaluated@.len());
    let best_candidate_id: Option<String> = match best {
        Some(i) => if i < evaluated.len() {
            Some(evaluated[i].candidate.id.clone())
        } else {
            None
        },
        None => None,
    };
    OptimizationState {
        run: run.duplicate(),
        evaluated_candidates: evaluated,
        best_candidate_id,
        metric_calls_used: stats.metric_calls_used,
        cache_hits: stats.cache_hits,
        cache_misses: stats.cache_misses,
        accepted_proposals: stats.accepted_proposals,
        rejected_proposals: stats.rejected_proposals,
    }
}

/// Whether two configurations agree in every setting.
pub open spec fn same_settings(a: OptimizationConfigView, b: OptimizationConfigView) -> bool {
    &&& a.max_metric_calls == b.max_metric_calls
    &&& a.max_iterations == b.max_iterations
    &&& a.minibatch_size == b.minibatch_size
    &&& a.max_concurrency == b.max_concurrency
    &&& a.perfect_score.same(b.perfect_score)
    &&& a.skip_perfect_score == b.skip_perfect_score
    &&& a.candidate_selection == b.candidate_selection
    &&& a.component_selection == b.component_selection
    &&& a.frontier == b.frontier
    &&& a.use_merge == b.use_merge
    &&& a.max_merge_invocations == b.max_merge_invocations
    &&& a.per_example_timeout_secs == b.per_example_timeout_secs
    &&& a.task_lm == b.task_lm
    &&& a.reflection_lm == b.reflection_lm
}

fn settings_agree(a: &OptimizationConfig, b: &OptimizationConfig) -> (r: bool)
    ensures
        r == same_settings(a@, b@),
{
    a.max_metric_calls == b.max_metric_calls && a.max_iterations == b.max_iterations
        && a.minibatch_size == b.minibatch_size && a.max_concurrency == b.max_concurrency
        && a.perfect_score.same_number(&b.perfect_score) && a.skip_perfect_score
        == b.skip_perfect_score && a.candidate_selection == b.candidate_selection
        && a.component_selection == b.component_selection && a.frontier == b.frontier
        && a.use_merge == b.use_merge && a.max_merge_invocations == b.max_merge_invocations
        && a.per_example_timeout_secs == b.per_example_timeout_secs && a.task_lm == b.task_lm
        && a.reflection_lm == b.reflection_lm
}

/// Refuses to go on with a store that was made for another experiment or other settings.
pub fn check_stored_run(existing: &OptimizationRun, run: &OptimizationRun) -> (r: Result<
    (),
    HarnessOptError,
>)
    ensures
        match r {
            Ok(()) => existing@.experiment_id == run@.experiment_id && same_settings(
                existing@.config,
                run@.config,
            ),
            Err(error) => {
                &&& existing@.experiment_id != run@.experiment_id || !same_settings(
                    existing@.config,
                    run@.config,
                )
                &&& error@ == HarnessOptErrorView::Store(
                    "existing harness-opt.sqlite has incompatible run config"@,
                )
            },
        },
{
    if existing.experiment_id != run.experiment_id || !settings_agree(
        &existing.config,
        &run.config,
    ) {
        Err(
            HarnessOptError::Store(
                "existing harness-opt.sqlite has incompatible run config".to_string(),
            ),
        )
    } else {
        Ok(())
    }
}

/// The split with the given name; the error names a text that is no split.
pub fn parse_split(name: &str) -> (r: Result<Split, String>)
    ensures
        match r {
            Ok(split) => name@ == crate::model::split_name(split),
            Err(text) => {
                &&& name@ != "train"@ && name@ != "val"@ && name@ != "test"@
                &&& text@ == "unknown split "@ + name@
            },
        },
{
    if same_text(name, "train") {
        Ok(Split::Train)
    } else if same_text(name, "val") {
        Ok(Split::Val)
    } else if same_text(name, "test") {
        Ok(Split::Test)
    } else {
        let mut text: String = "unknown split ".to_string();
        text.append(name);
        Err(text)
    }
}

/// The name of a split is read back as the split.
pub proof fn split_names_are_distinct(a: Split, b: Split)
    requires
        crate::model::split_name(a) == crate::model::split_name(b),
    ensures
        a == b,
{
    reveal_strlit("train");
    reveal_strlit("val");
    reveal_strlit("test");
    assert("train"@.len() == 5 && "val"@.len() == 3 && "test"@.len() == 4);
}

} // verus!
