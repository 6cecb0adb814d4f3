//! Laws of the operations themselves: what holds of what a call is given and what it returns.

use std::collections::hash_map::DefaultHasher;

use vstd::prelude::*;
use vstd::std_specs::hash::*;

use crate::engine::{
    all_patched, apply_patches, apply_proposal_with_suffix, example_run_record,
    greatest_generation, next_component_cursor, next_cursor, next_generation, outcome, proposed,
    run_record, scope_error, select_batch, select_components, select_parent, selected_components,
    validate_component_value, validate_patch_scope, value_error,
};
use crate::evaluation::{
    concurrency, example_context, gather_runs, outcomes_of, settle_example, timed_out,
    timeout_run, trace_context, CachedEvaluation, EvaluationAction, EvaluationEvent,
    ExampleOutcome,
};
use crate::fingerprint::{
    candidate_fingerprint, document_of_components, evaluation_cache_key, fingerprint, hashed,
    hashed_evaluation,
};
use crate::gepa_summary::{
    apply_patches_to_candidate, build_gepa_summary, component_texts, compute_pareto_front_idxs,
    extract_text_value, leniently_patched, subscores, summary_of, text_value, texts_of,
    val_subscores, CandidateSummaryEntry, GepaSummary, SummarySources,
};
use crate::json::{Json, JsonView};
use crate::laws::candidates::shows_better;
use crate::laws::fingerprint::same_component;
use crate::laws::run::window;
use crate::laws::selection::{first_with_greatest_score, lists_covered, takes_turns};
use crate::laws::summary::{holds_somewhere, score_on, takes_part};
use crate::model::{
    Candidate, CandidateEvaluation, CandidateProposal, CandidateRecord, ComponentConstraints,
    ComponentPatch, ComponentValue, EvaluationRecord, EvaluationResult, ExampleRun, HarnessExample,
    HarnessOptError, HarnessOptErrorView, MutableComponent, OptimizationConfig, OptimizationRun,
    OptimizationState, Split, StoreStats, TraceContext,
};
use crate::optimizer::{
    optimization_start, resume_run, HarnessOptimization, OptimizerAction, OptimizerActionView,
    OptimizerEvent, PhaseView,
};
use crate::pareto::{complement, complementary_pair, merge_candidates, merged_from};
use crate::score::Score;
use crate::state::{
    check_stored_run, collect_candidates, evaluated_candidates, load_optimization_state,
    parse_split, same_settings, state_of,
};
use crate::string_map::StringMap;
use crate::synthetic_task::score_synthetic_example;
use crate::text::{digits, is_space};
use crate::views::{opt_view, views};

verus! {

/// A response passes, with the score one, exactly when its text between white space is the whole
/// answer that the expected value has; otherwise its score is zero.
pub proof fn scoring_compares_with_the_whole_answer(
    response: &str,
    expected: Option<Json>,
    example_id: &str,
    split: Split,
    result: EvaluationResult,
    before: Seq<char>,
    text: Seq<char>,
    after: Seq<char>,
    members: Seq<(Seq<char>, JsonView)>,
    at: int,
    answer: Seq<char>,
)
    requires
        call_ensures(
            score_synthetic_example,
            (response, &expected, example_id, &split),
            result,
        ),
        response@ == before + text + after,
        forall|i: int| 0 <= i < before.len() ==> is_space(#[trigger] before[i]),
        forall|i: int| 0 <= i < after.len() ==> is_space(#[trigger] after[i]),
        text.len() > 0 ==> !is_space(text[0]) && !is_space(text[text.len() - 1]),
        opt_view(expected) == Some(JsonView::Object(members)),
        0 <= at < members.len(),
        members[at] == ("answer"@, JsonView::Text(answer)),
        forall|i: int| 0 <= i < at ==> (#[trigger] members[i]).0 != "answer"@,
    ensures
        result@.passed == Some(text == answer),
        result@.score.bits == if text == answer {
            0x3ff0_0000_0000_0000u64
        } else {
            0u64
        },
        result@.example_id == example_id@,
        result@.split == split,
{
    crate::laws::synthetic::responses_pass_exactly_with_the_whole_answer(
        before,
        text,
        after,
        members,
        at,
        answer,
        example_id@,
        split,
    );
}

/// The parent of an iteration, where the examples take turns, is the first candidate with the
/// greatest score on the covered example at the place of the iteration, counted around.
pub proof fn selection_lets_the_examples_take_turns(
    states: &[CandidateEvaluation],
    config: OptimizationConfig,
    iteration: usize,
    best: Option<usize>,
    parent: Option<usize>,
    ids: Seq<Seq<char>>,
)
    requires
        call_ensures(select_parent, (states, &config, iteration, best), parent),
        lists_covered(ids, views(states@)),
        takes_turns(config@, iteration as nat),
    ensures
        ids.len() == 0 ==> parent is None,
        ids.len() > 0 ==> (parent matches Some(i) && first_with_greatest_score(
            views(states@),
            ids[iteration as int % ids.len() as int],
            i as int,
        )),
{
    crate::laws::selection::parents_are_greatest_on_the_example_of_their_turn(
        views(states@),
        config@,
        iteration as nat,
        best,
        ids,
    );
}

/// A candidate with the strictly greatest score on any one example is on the front that is
/// computed, and the front that is computed is the same in whatever order the examples are given.
pub proof fn computing_the_front_looks_at_every_example(
    entries: &[CandidateSummaryEntry],
    val_ids: &[String],
    front: Vec<usize>,
    other_ids: &[String],
    other_front: Vec<usize>,
    i: int,
)
    requires
        call_ensures(compute_pareto_front_idxs, (entries, val_ids), front),
        call_ensures(compute_pareto_front_idxs, (entries, other_ids), other_front),
        0 <= i < entries@.len() <= usize::MAX,
    ensures
        (forall|id: Seq<char>| #[trigger]
            views(val_ids@).contains(id) <==> views(other_ids@).contains(id)) ==> front@
            == other_front@,
        front@.contains(i as usize) <==> takes_part(views(entries@)[i]) && forall|j: int|
            0 <= j < entries@.len() && j != i && takes_part(#[trigger] views(entries@)[j])
                ==> holds_somewhere(views(entries@)[i], views(entries@)[j], views(val_ids@)),
        forall|k: int|
            0 <= k < val_ids@.len() && takes_part(views(entries@)[i]) && (forall|j: int|
                0 <= j < entries@.len() && j != i && takes_part(#[trigger] views(entries@)[j])
                    ==> score_on(views(entries@)[j], views(val_ids@)[k]).lt(
                    score_on(views(entries@)[i], views(val_ids@)[k]),
                )) ==> #[trigger] on_front_for(front@, i, k),
{
    let all = views(entries@);
    let ids = views(val_ids@);
    assert(all.len() == entries@.len() && ids.len() == val_ids@.len());
    crate::laws::summary::one_example_keeps_a_candidate_from_being_beaten(all, ids, i);
    if forall|id: Seq<char>| #[trigger]
        views(val_ids@).contains(id) <==> views(other_ids@).contains(id) {
        crate::laws::summary::the_front_does_not_depend_on_the_order_of_examples(
            all,
            ids,
            views(other_ids@),
            all.len(),
        );
    }
    assert forall|k: int|
        0 <= k < val_ids@.len() && takes_part(all[i]) && (forall|j: int|
            0 <= j < entries@.len() && j != i && takes_part(#[trigger] all[j]) ==> score_on(
                all[j],
                ids[k],
            ).lt(score_on(all[i], ids[k]))) implies #[trigger] on_front_for(front@, i, k) by {
        crate::laws::summary::the_best_on_an_example_is_on_the_front(all, ids, i, k);
    }
}

/// Whether a front holds a candidate, on account of the example at a place.
pub open spec fn on_front_for(front: Seq<usize>, i: int, k: int) -> bool {
    front.contains(i as usize)
}

/// Components with the same document are the same: under the same names, with the same ids,
/// values, descriptions and constraints.
pub proof fn documents_of_different_components_differ(
    a: StringMap<MutableComponent>,
    b: StringMap<MutableComponent>,
    x: Json,
    y: Json,
    name: Seq<char>,
)
    requires
        call_ensures(document_of_components, (&a,), x),
        call_ensures(document_of_components, (&b,), y),
        x@ == y@,
        a@.dom().finite(),
        b@.dom().finite(),
    ensures
        a@.contains_key(name) <==> b@.contains_key(name),
        a@.contains_key(name) ==> same_component(a@[name], b@[name]),
{
    crate::laws::fingerprint::lemma_components(a@, b@);
}

/// The fingerprint of a candidate is the hash of what determines the text of its document, in
/// sixteen hexadecimal digits; and the key of a cached evaluation is one of the fingerprint, the id
/// of the example and its split.
pub proof fn fingerprinting_hashes_the_document(
    candidate: Candidate,
    example: HarnessExample,
    made: Result<String, HarnessOptError>,
    key: String,
)
    requires
        call_ensures(candidate_fingerprint, (&candidate,), made),
        call_ensures(evaluation_cache_key, (&candidate, &example), key),
    ensures
        made matches Ok(text) && text@.len() == 16 && text@ == digits(
            DefaultHasher::spec_finish(hashed(candidate@)) as nat,
            16,
            16,
        ),
        key@.len() == 16,
        key@ == digits(
            DefaultHasher::spec_finish(hashed_evaluation(candidate@, example@)) as nat,
            16,
            16,
        ),
{
    crate::laws::fingerprint::fingerprints_hash_the_whole_document(candidate@, candidate@);
    crate::laws::fingerprint::cache_keys_hash_the_whole_evaluation(
        candidate@,
        candidate@,
        example@,
        example@,
    );
}

/// Whether the score that a merge had to reach is one of two, and less than neither.
pub open spec fn greater_of_two(score: Score, left: Score, right: Score) -> bool {
    (score == left || score == right) && !score.lt(left) && !score.lt(right)
}

/// A merge that has been evaluated goes on to be stored only where its score is less than neither
/// of those of the two that were merged, and is recorded as refused otherwise. What is recorded as
/// the score before is one of the two and less than neither.
pub proof fn merging_keeps_what_is_no_worse_than_both(
    state: HarnessOptimization,
    event: OptimizerEvent,
    fresh: &str,
    next: (HarnessOptimization, OptimizerAction),
)
    requires
        call_ensures(HarnessOptimization::advance, (state, event, fresh), next),
        state@.phase is EvaluatingMerged,
        event@ is Evaluated,
    ensures
        ({
            let left = state@.phase->EvaluatingMerged_left;
            let right = state@.phase->EvaluatingMerged_right;
            let mean = event@->Evaluated_mean;
            &&& next.1@ is LoadStats || next.1@ is InsertProposal
            &&& next.1@ is LoadStats ==> {
                &&& !mean.lt(left)
                &&& !mean.lt(right)
                &&& next.0@.phase matches PhaseView::BudgetingMerge(trial)
                &&& greater_of_two(trial.before, left, right)
                &&& trial.after == mean
                &&& trial.plan == state@.phase->EvaluatingMerged_plan
            }
            &&& next.1@ matches OptimizerActionView::InsertProposal(record) ==> {
                &&& mean.nan() || mean.lt(left) || mean.lt(right) || left.nan() && right.nan()
                &&& !record.accepted
                &&& greater_of_two(record.before_score, left, right)
                &&& record.after_score == mean
            }
        }),
{
}

/// A step of a run is the one that the course of the run says, and so is its start.
pub proof fn runs_step_as_their_course_says(
    state: HarnessOptimization,
    event: OptimizerEvent,
    fresh: &str,
    run: OptimizationRun,
    stored: Option<OptimizationRun>,
    seed: Candidate,
    trainset: Vec<HarnessExample>,
    valset: Vec<HarnessExample>,
)
    ensures
        forall|next: (HarnessOptimization, OptimizerAction)| #[trigger]
            call_ensures(HarnessOptimization::advance, (state, event, fresh), next) ==> (
                next.0@,
                next.1@,
            ) == state@.after(event@, fresh@),
        forall|next: (HarnessOptimization, OptimizerAction)| #[trigger]
            call_ensures(HarnessOptimization::step, (state, event), next) ==> exists|
                suffix: Seq<char>,
            |
                (next.0@, next.1@) == #[trigger] state@.after(event@, suffix) && suffix.len()
                    == 36,
        forall|next: (HarnessOptimization, OptimizerAction)| #[trigger]
            call_ensures(HarnessOptimization::start, (run, seed, trainset, valset), next) ==> (
                next.0@,
                next.1@,
            ) == optimization_start(run@, seed@, views(trainset@), views(valset@)),
        forall|r: OptimizationRun| #[trigger]
            call_ensures(resume_run, (run, stored), r) ==> r@.run_dir == run@.run_dir
                && r@.config.max_metric_calls == run@.config.max_metric_calls && (
            stored matches Some(old_run) ==> r@.run_id == old_run@.run_id && r@.experiment_id
                == old_run@.experiment_id && r@.config.minibatch_size
                == old_run@.config.minibatch_size) && (stored is None ==> r@ == run@),
        forall|fits: bool| #[trigger]
            call_ensures(HarnessOptimization::fits_machine, (&state,), fits) ==> fits
                == state@.within_limits(),
{
}

/// The examples of a batch follow each other from the place of its number on, around the end.
pub proof fn batches_are_windows(
    examples: &[HarnessExample],
    size: usize,
    generation: usize,
    part: Vec<HarnessExample>,
)
    requires
        call_ensures(select_batch, (examples, size, generation), part),
    ensures
        window(views(part@), views(examples@), generation as int, size as int),
{
    crate::laws::run::lemma_window(views(examples@), size as nat, generation as nat);
}

/// What the functions that select, patch and merge return, in the words of the other laws.
pub proof fn candidates_are_made_as_the_laws_say(
    candidate: Candidate,
    other: Candidate,
    generation: usize,
)
    ensures
        forall|made: Candidate| #[trigger]
            call_ensures(merge_candidates, (&candidate, &other, generation), made) ==> merged_from(
                made@,
                candidate@,
                other@,
                generation as nat,
            ),
        forall|patches: Vec<ComponentPatch>, made: Result<Candidate, HarnessOptError>| #[trigger]
            call_ensures(apply_patches, (candidate, &patches), made) ==> outcome(made)
                == all_patched(candidate@, views(patches@)),
        forall|
            proposal: CandidateProposal,
            suffix: &str,
            made: Result<Candidate, HarnessOptError>,
        | #[trigger]
            call_ensures(
                apply_proposal_with_suffix,
                (&candidate, generation, &proposal, suffix),
                made,
            ) ==> outcome(made) == proposed(
                candidate@,
                generation as nat,
                proposal@,
                suffix@,
            ),
        forall|
            id: &str,
            constraints: ComponentConstraints,
            value: ComponentValue,
            checked: Result<(), HarnessOptError>,
        | #[trigger]
            call_ensures(validate_component_value, (id, &constraints, &value), checked) ==> (
            checked is Ok <==> value_error(id@, constraints@, value@) is None) && (
            checked matches Err(error) ==> value_error(id@, constraints@, value@) == Some(error@)),
        forall|
            proposal: CandidateProposal,
            selected: &[String],
            checked: Result<(), HarnessOptError>,
        | #[trigger]
            call_ensures(validate_patch_scope, (&proposal, selected), checked) ==> (checked is Ok
                <==> scope_error(proposal@, views(selected@)) is None) && (
            checked matches Err(error) ==> scope_error(proposal@, views(selected@)) == Some(
                error@,
            )),
        forall|record: CandidateRecord, config: OptimizationConfig, ids: Vec<String>| #[trigger]
            call_ensures(select_components, (&record, &config), ids) ==> views(ids@)
                == selected_components(record@, config@),
        forall|record: CandidateRecord, config: OptimizationConfig, n: usize, cursor: usize|
            #[trigger] call_ensures(next_component_cursor, (&record, &config, n), cursor)
                ==> cursor == next_cursor(record@, config@, n as nat),
        forall|records: &[CandidateRecord], latest: usize| #[trigger]
            call_ensures(next_generation, (records,), latest) ==> latest == greatest_generation(
                views(records@),
            ),
        forall|text: &str, run: ExampleRun, hit: bool, record: EvaluationRecord| #[trigger]
            call_ensures(example_run_record, (&candidate, text, &run, hit), record) ==> record@
                == run_record(candidate@, text@, run@, hit),
        forall|patches: &[ComponentPatch], texts: StringMap<String>| #[trigger]
            call_ensures(apply_patches_to_candidate, (&candidate, patches), texts) ==> texts@
                == texts_of(leniently_patched(candidate@, views(patches@)).mutable_components),
{
}

/// The pair of candidates that complement each other is the first in the order of the places, the
/// first of the two counting before the second; there is none only where no two complement each
/// other.
pub proof fn the_first_complementary_pair_is_taken(
    states: &[CandidateEvaluation],
    pair: Option<(usize, usize)>,
    a: int,
    b: int,
    x: Seq<char>,
    y: Seq<char>,
)
    requires
        call_ensures(complementary_pair, (states,), pair),
        0 <= a < b < states@.len(),
        shows_better(x, states@[a]@, states@[b]@),
        shows_better(y, states@[b]@, states@[a]@),
    ensures
        pair matches Some((i, j)) && i < j < states@.len() && (i < a || i == a && j <= b)
            && complement(states@[i as int]@, states@[j as int]@),
{
    crate::laws::candidates::complements_are_better_on_different_examples(
        states@[a]@,
        states@[b]@,
    );
    assert(complement(states@[a]@, states@[b]@));
    if pair is Some {
        let (i, j) = pair->0;
        assert(i < j < states@.len());
    }
    if pair is None {
        assert(forall|c: int, d: int|
            #![trigger states@[c]@, states@[d]@]
            0 <= c < d < states@.len() ==> !complement(states@[c]@, states@[d]@));
    }
}

/// Evaluations run with at least one at a time, and with so many as the configuration says where
/// that is more.
pub proof fn evaluations_run_as_many_at_a_time(run: OptimizationRun, n: usize)
    requires
        call_ensures(concurrency, (&run,), n),
    ensures
        n >= 1,
        n >= run@.config.max_concurrency,
        n == 1 || n == run@.config.max_concurrency,
{
}

/// The end of an evaluation settles its run: cancelled and broken evaluations fail, late ones have
/// a run that failed, and the others have what they came to.
pub proof fn the_end_settles_the_run(
    example: HarnessExample,
    ended: ExampleOutcome,
    settled: Result<ExampleRun, HarnessOptError>,
)
    requires
        call_ensures(settle_example, (&example, ended), settled),
    ensures
        ended is Cancelled ==> (settled matches Err(error) && error@ is Cancelled),
        ended matches ExampleOutcome::TimedOut(secs) ==> (settled matches Ok(run) && run@
            == timed_out(example@, secs)),
        ended matches ExampleOutcome::Completed(r) ==> outcome(settled) == outcome(r),
        ended matches ExampleOutcome::Broken(text) ==> (settled matches Err(error) && error@
            == HarnessOptErrorView::Harness(text@)),
{
}

/// What the functions that gather, store and read evaluations return, in the words of the other
/// laws.
pub proof fn evaluations_are_kept_as_the_laws_say(
    candidate: Candidate,
    example: HarnessExample,
    run: OptimizationRun,
)
    ensures
        forall|
            outcomes: Vec<Result<ExampleRun, HarnessOptError>>,
            all: Result<CandidateEvaluation, HarnessOptError>,
        | #[trigger]
            call_ensures(gather_runs, (candidate, outcomes), all) ==> match (
                crate::evaluation::all_runs(outcomes_of(outcomes@)),
                all,
            ) {
                (Ok(runs), Ok(evaluation)) => evaluation@ == crate::evaluation::collected(
                    candidate@,
                    runs,
                ),
                (Err(error), Err(failure)) => failure@ == error,
                _ => false,
            },
        forall|context: TraceContext| #[trigger]
            call_ensures(trace_context, (&run, &candidate, &example), context) ==> context@
                == example_context(run@, candidate@, example@),
        forall|secs: u64, late: ExampleRun| #[trigger]
            call_ensures(timeout_run, (&example, secs), late) ==> late@ == timed_out(
                example@,
                secs,
            ),
        forall|
            candidates: &[CandidateRecord],
            evaluations: &[EvaluationRecord],
            all: Vec<CandidateEvaluation>,
        | #[trigger]
            call_ensures(collect_candidates, (&run, candidates, evaluations), all) ==> views(all@)
                == evaluated_candidates(run@, views(candidates@), views(evaluations@)),
        forall|
            evaluated: Vec<CandidateEvaluation>,
            best: Option<usize>,
            stats: StoreStats,
            state: OptimizationState,
        | #[trigger]
            call_ensures(load_optimization_state, (&run, evaluated, best, &stats), state)
                ==> state@ == state_of(run@, views(evaluated@), best, stats@),
        forall|
            state: CachedEvaluation,
            event: EvaluationEvent,
            next: (CachedEvaluation, EvaluationAction),
        | #[trigger]
            call_ensures(CachedEvaluation::step, (state, event), next) ==> (next.0@, next.1@)
                == state@.after(event@),
        forall|examples: &[HarnessExample], next: (CachedEvaluation, EvaluationAction)| #[trigger]
            call_ensures(CachedEvaluation::start, (&candidate, examples), next) ==> (
                next.0@,
                next.1@,
            ) == crate::evaluation::evaluation_start(candidate@, views(examples@)).ask(),
{
}

/// A store is gone on with exactly where the experiment and every setting agree.
pub proof fn stores_are_checked_for_their_settings(
    existing: OptimizationRun,
    run: OptimizationRun,
    checked: Result<(), HarnessOptError>,
)
    requires
        call_ensures(check_stored_run, (&existing, &run), checked),
    ensures
        checked is Ok <==> existing@.experiment_id == run@.experiment_id && same_settings(
            existing@.config,
            run@.config,
        ),
        checked matches Err(error) ==> error@ is Store,
{
}

/// A split is read from its own name, and from no other text.
pub proof fn splits_are_read_from_their_names(name: &str, read: Result<Split, String>)
    requires
        call_ensures(parse_split, (name,), read),
    ensures
        name@ == "train"@ ==> read == Ok::<Split, String>(Split::Train),
        name@ == "val"@ ==> read == Ok::<Split, String>(Split::Val),
        name@ == "test"@ ==> read == Ok::<Split, String>(Split::Test),
        name@ != "train"@ && name@ != "val"@ && name@ != "test"@ ==> read is Err,
{
    reveal_strlit("train");
    reveal_strlit("val");
    reveal_strlit("test");
    assert("train"@.len() == 5 && "val"@.len() == 3 && "test"@.len() == 4);
}

/// What the functions of the summary return, in the words of the other laws.
pub proof fn summaries_are_made_as_the_laws_say(sources: SummarySources, stats: StoreStats)
    ensures
        forall|secs: u64, summary: GepaSummary| #[trigger]
            call_ensures(build_gepa_summary, (&sources, &stats, secs), summary) ==> summary@
                == summary_of(sources@, stats@, secs as nat),
        forall|value: ComponentValue, text: String| #[trigger]
            call_ensures(extract_text_value, (&value,), text) ==> text@ == text_value(value@),
        forall|components: StringMap<MutableComponent>, texts: StringMap<String>| #[trigger]
            call_ensures(component_texts, (&components,), texts) ==> texts@ == texts_of(
                components@,
            ),
        forall|
            evaluations: &[EvaluationRecord],
            id: String,
            ids: &[String],
            scores: StringMap<Score>,
        | #[trigger]
            call_ensures(val_subscores, (evaluations, &id, ids), scores) ==> scores@ == subscores(
                views(evaluations@),
                id@,
                views(ids@),
            ),
{
}

} // verus!
