//! Laws of the operations of the tasks, of the proposer and of the commands: what holds of what a
//! call is given and what it returns.

use vstd::prelude::*;

use crate::commands::{
    check_document, check_report, evaluation_config, new_run, obliq_config, stats_document,
    stats_report, synthetic_config, synthetic_proposer_model, toybench_config, ToybenchSettings,
};
use crate::engine::outcome;
use crate::feedback::{
    asi_feedback, build_asi_feedback, calls_fit, countable, extract_tool_from_caused_by_call_id,
    gold_found, tool_of_call,
};
use crate::json::Json;
use crate::laws::feedback::among_first;
use crate::model::{
    Candidate, CandidateProposal, ExampleRun, HarnessExample, HarnessOptError, HarnessOptErrorView,
    OptimizationConfig, OptimizationRun, OptimizationState, Split, StrategyRequest, TraceRecord,
};
use crate::obliq::{
    build_examples, complete_run, examples_of, final_agent_text, gold_coverage, judge_output,
    last_answer, latest_path, load_queries, output_of, output_paths, parse_qrels_tsv,
    qrels_of_lines, qrels_path, queries_of_lines, relevance_texts, relevances_of_lines, run_file,
    submitted, submitted_run, train_query_ids, unsubmitted_run, val_query_ids, Coverage,
    EvaluationPlan, ObliqHarnessProject, RunOutput,
};
use crate::obliq_evaluation::{obliq_start, ObliqAction, ObliqEvaluation, ObliqEvent};
use crate::proposer::{
    assistant_prose, conclude_turn, filled, output_path, prompt_path, proposer_model,
    proposer_prompt, provider_model, render_gepa_proposer_prompt, render_prompt_template,
    session_name, turn_name, with_artifact_refs, with_proposal_artifact_refs,
    PromptTemplateValues, ProposerTurn, ProviderModels,
};
use crate::score::Score;
use crate::strategies::gepa::{
    evidence, list_or_text, list_outcome, output_schema, parse_candidate_proposals,
    proposal_output_schema, proposals_of, reflective, reflective_request,
    render_reflective_evidence, render_trace_record, rendered_record, ReflectiveProposalRequest,
};
use crate::string_map::{enumerates, in_order, lemma_enumeration_unique, StringMap};
use crate::synthetic_task::{
    answered_run, instruction_and_question, prepare_session, scored_response, session_model,
};
use crate::text::{decimal, joined, path_join, text_lines};
use crate::views::{opt_view, views};

verus! {

/// The gold documents that are found are those that stand among the first ranked ones, each
/// counted once, of all that there are.
pub proof fn coverage_counts_gold_documents_once(
    ranked: &[String],
    gold: StringMap<Score>,
    k: usize,
    found: usize,
    coverage: Coverage,
    names: Seq<Seq<char>>,
)
    requires
        call_ensures(gold_found, (ranked, &gold, k), found),
        call_ensures(gold_coverage, (ranked, &gold, k), coverage),
        enumerates(names, gold@.dom()),
    ensures
        found == names.filter(|id: Seq<char>| among_first(views(ranked@), k as nat, id)).len(),
        coverage.found == found,
        coverage.total == names.len(),
        coverage.found <= coverage.total,
{
    crate::laws::feedback::gold_documents_are_counted_once(
        views(ranked@),
        gold@.dom(),
        k as nat,
        names,
    );
    lemma_enumeration_unique(names, in_order(gold@.dom()), gold@.dom());
}

/// What the functions of the retrieval task read and write, in the words of the other laws.
pub proof fn retrieval_is_done_as_the_laws_say(
    text: &str,
    numbers: StringMap<Score>,
    example: HarnessExample,
    plan: EvaluationPlan,
)
    ensures
        forall|r: StringMap<StringMap<Score>>| #[trigger]
            call_ensures(parse_qrels_tsv, (text, &numbers), r) ==> r@ == qrels_of_lines(
                text_lines(text@),
                numbers@,
            ),
        forall|r: Vec<String>| #[trigger]
            call_ensures(relevance_texts, (text,), r) ==> views(r@) == relevances_of_lines(
                text_lines(text@),
            ),
        forall|r: Result<StringMap<String>, HarnessOptError>| #[trigger]
            call_ensures(load_queries, (text,), r) ==> outcome(r) == queries_of_lines(
                text_lines(text@),
            ),
        forall|
            ids: &[String],
            split: Split,
            queries: StringMap<String>,
            r: Result<Vec<HarnessExample>, HarnessOptError>,
        | #[trigger]
            call_ensures(build_examples, (ids, split, &queries), r) ==> match (
                r,
                examples_of(views(ids@), split, queries@),
            ) {
                (Ok(made), Ok(examples)) => views(made@) == examples,
                (Err(failure), Err(error)) => failure@ == error,
                _ => false,
            },
        forall|value: Json, trace: &str, r: Result<RunOutput, ExampleRun>| #[trigger]
            call_ensures(judge_output, (&value, &example, text, trace), r) ==> match r {
                Ok(output) => submitted(value@) && output@ == output_of(value@),
                Err(ended) => !submitted(value@) && ended@ == unsubmitted_run(
                    example@,
                    value@,
                    text@,
                    trace@,
                ),
            },
        forall|records: &[TraceRecord], r: String| #[trigger]
            call_ensures(final_agent_text, (records,), r) ==> r@ == last_answer(views(records@)),
        forall|r: String| #[trigger]
            call_ensures(latest_path, (&plan,), r) ==> r@ == path_join(
                plan@.output_dir,
                "_latest"@,
            ),
        forall|r: (String, String)| #[trigger]
            call_ensures(output_paths, (&plan, text, &example), r) ==> r.0@ == run_file(
                plan@.output_dir,
                text@,
                example@.id,
                ".json"@,
            ) && r.1@ == run_file(plan@.output_dir, text@, example@.id, ".trace.jsonl"@),
        forall|
            output: RunOutput,
            records: Vec<TraceRecord>,
            ndcg: &str,
            trace: &str,
            r: ExampleRun,
        | #[trigger]
            call_ensures(
                complete_run,
                (&example, &output, &numbers, records, ndcg, text, trace),
                r,
            ) ==> r@ == submitted_run(
                example@,
                output@,
                numbers@,
                views(records@),
                ndcg@,
                text@,
                trace@,
            ),
        forall|records: &[TraceRecord], ids: &[String], last: &str, r: String| #[trigger]
            call_ensures(build_asi_feedback, (records, ids, &numbers, text, last), r) ==> r@
                == asi_feedback(views(records@), views(ids@), numbers@, text@, last@),
        forall|r: Option<String>| #[trigger]
            call_ensures(extract_tool_from_caused_by_call_id, (text,), r) ==> opt_view(r)
                == tool_of_call(text@),
        forall|records: &[TraceRecord], r: bool| #[trigger]
            call_ensures(calls_fit, (records,), r) ==> r == countable(views(records@)),
{
}

/// The pooled judgements are used exactly where there are some.
pub proof fn pooled_judgements_are_preferred(dir: &str, size: Option<u64>, path: String)
    requires
        call_ensures(qrels_path, (dir, size), path),
    ensures
        size matches Some(n) && n > 0 ==> path@ == path_join(
            path_join(dir@, "math"@),
            "qrels_pool.tsv"@,
        ),
        size is None || size == Some(0u64) ==> path@ == path_join(
            path_join(dir@, "math"@),
            "qrels.tsv"@,
        ),
{
}

/// A project plans, and gives out its seed, its sets and the relevances of an example, as the laws
/// say.
pub proof fn projects_do_as_the_laws_say(
    project: ObliqHarnessProject,
    run: OptimizationRun,
    candidate: Candidate,
    example: HarnessExample,
)
    ensures
        forall|r: Result<EvaluationPlan, ExampleRun>| #[trigger]
            call_ensures(
                ObliqHarnessProject::plan_evaluation,
                (&project, &run, &candidate, &example),
                r,
            ) ==> match (r, project@.plan(run@, candidate@, example@)) {
                (Ok(made), Ok(plan)) => made@ == plan,
                (Err(made), Err(ended)) => made@ == ended,
                _ => false,
            },
        forall|r: Candidate| #[trigger]
            call_ensures(ObliqHarnessProject::seed_candidate, (&project,), r) ==> r@
                == project@.seed(),
        forall|r: StringMap<Score>| #[trigger]
            call_ensures(ObliqHarnessProject::gold, (&project, &example), r) ==> if
                project@.qrels.contains_key(example@.id) {
                r@ == project@.qrels[example@.id]
            } else {
                forall|id: Seq<char>| !r@.contains_key(id)
            },
        forall|r: Result<Vec<HarnessExample>, HarnessOptError>| #[trigger]
            call_ensures(ObliqHarnessProject::trainset, (&project,), r) ==> match (
                r,
                examples_of(train_query_ids(), Split::Train, project@.queries),
            ) {
                (Ok(made), Ok(examples)) => views(made@) == examples,
                (Err(failure), Err(error)) => failure@ == error,
                _ => false,
            },
        forall|r: Result<Vec<HarnessExample>, HarnessOptError>| #[trigger]
            call_ensures(ObliqHarnessProject::valset, (&project,), r) ==> match (
                r,
                examples_of(val_query_ids(), Split::Val, project@.queries),
            ) {
                (Ok(made), Ok(examples)) => views(made@) == examples,
                (Err(failure), Err(error)) => failure@ == error,
                _ => false,
            },
        forall|r: (ObliqEvaluation, ObliqAction)| #[trigger]
            call_ensures(ObliqEvaluation::start, (&project, &run, &candidate, &example), r) ==> (
                r.0@,
                r.1@,
            ) == obliq_start(project@, run@, candidate@, example@),
        forall|state: ObliqEvaluation, event: ObliqEvent, r: (ObliqEvaluation, ObliqAction)|
            #[trigger] call_ensures(ObliqEvaluation::step, (state, event), r) ==> (r.0@, r.1@)
                == state@.after(event@),
{
}

/// The sets of queries have no query in common: none is trained on and validated on.
pub proof fn no_query_is_trained_and_validated_on(id: Seq<char>)
    ensures
        !(train_query_ids().contains(id) && val_query_ids().contains(id)),
        train_query_ids().len() == 7,
        val_query_ids().len() == 3,
{
    reveal_strlit("q02193");
    reveal_strlit("q01486");
    reveal_strlit("q01066");
    reveal_strlit("q02834");
    reveal_strlit("q01757");
    reveal_strlit("q02979");
    reveal_strlit("q01298");
    reveal_strlit("q00844");
    reveal_strlit("q00847");
    reveal_strlit("q01488");
    let t = train_query_ids();
    let v = val_query_ids();
    if t.contains(id) && v.contains(id) {
        let i = choose|i: int| 0 <= i < t.len() && t[i] == id;
        let j = choose|j: int| 0 <= j < v.len() && v[j] == id;
        assert(i == 0 || i == 1 || i == 2 || i == 3 || i == 4 || i == 5 || i == 6);
        assert(j == 0 || j == 1 || j == 2);
        assert(t[i][2] == v[j][2] && t[i][3] == v[j][3] && t[i][4] == v[j][4] && t[i][5]
            == v[j][5]);
    }
}

/// What the functions of the synthetic task return, in the words of the other laws.
pub proof fn questions_are_answered_as_the_laws_say(candidate: Candidate, example: HarnessExample)
    ensures
        forall|r: Result<(String, String), HarnessOptError>| #[trigger]
            call_ensures(prepare_session, (&candidate, &example), r) ==> match (
                r,
                instruction_and_question(candidate@, example@),
            ) {
                (Ok(made), Ok(pair)) => made.0@ == pair.0 && made.1@ == pair.1,
                (Err(failure), Err(error)) => failure@ == error,
                _ => false,
            },
        forall|named: &str, default: &str, r: String| #[trigger]
            call_ensures(session_model, (named, default), r) ==> (named@.len() > 0 ==> r@
                == named@) && (named@.len() == 0 ==> r@ == default@),
        forall|response: &str, r: ExampleRun| #[trigger]
            call_ensures(answered_run, (&example, response), r) ==> r@.example == example@
                && r@.result == scored_response(
                response@,
                example@.expected,
                example@.id,
                example@.split,
            ) && r@.trace is None && r@.metric_calls == 1,
{
}

/// A turn that ended with an answer gives the answer, its proposals naming the files of the
/// request; any other is an error that says how it ended.
pub proof fn turns_end_with_their_answer(
    request: ReflectiveProposalRequest,
    turn: ProposerTurn,
    prose: &str,
    ended: Result<Json, HarnessOptError>,
)
    requires
        call_ensures(conclude_turn, (&request, turn, prose), ended),
    ensures
        turn matches ProposerTurn::Finished(value) ==> (ended matches Ok(answer) && answer@
            == with_artifact_refs(
            value@,
            path_join(request@.artifact_dir, "prompt.md"@),
            path_join(request@.artifact_dir, "output.json"@),
        )),
        turn matches ProposerTurn::Unfinished(outcome, errors) ==> (ended matches Err(error)
            && error@ == HarnessOptErrorView::Strategy(
            "GEPA RLM proposer did not finish a proposal: outcome="@ + outcome@ + " errors="@
                + errors@ + " output="@ + prose@,
        )),
{
}

/// The sessions and turns of a proposer are named after the run and the iteration, and its files
/// stand in the directory of the request.
pub proof fn sessions_are_named_after_the_run(request: ReflectiveProposalRequest)
    ensures
        forall|r: String| #[trigger]
            call_ensures(session_name, (&request,), r) ==> r@ == "harness-opt-gepa-"@
                + request@.run_id + "-"@ + decimal(request@.generation as nat),
        forall|r: String| #[trigger]
            call_ensures(turn_name, (&request,), r) ==> r@ == "harness-opt-gepa-turn-"@
                + request@.run_id + "-"@ + decimal(request@.generation as nat),
        forall|r: String| #[trigger]
            call_ensures(prompt_path, (&request,), r) ==> r@ == path_join(
                request@.artifact_dir,
                "prompt.md"@,
            ),
        forall|r: String| #[trigger]
            call_ensures(output_path, (&request,), r) ==> r@ == path_join(
                request@.artifact_dir,
                "output.json"@,
            ),
{
}

/// A model that is named is asked; otherwise the kind of the provider decides.
pub proof fn named_models_are_asked(
    model: Option<String>,
    kind: &str,
    models: ProviderModels,
    config: OptimizationConfig,
)
    ensures
        forall|r: String| #[trigger]
            call_ensures(proposer_model, (&model, kind, &models), r) ==> match model {
                Some(name) => r@ == name@,
                None => r@ == provider_model(
                    kind@,
                    models.anthropic@,
                    models.openai_compatible@,
                ),
            },
        forall|r: String| #[trigger]
            call_ensures(synthetic_proposer_model, (&model, &config), r) ==> match model {
                Some(name) => r@ == name@,
                None => r@ == config@.reflection_lm,
            },
{
}

/// What the functions of the proposer return, in the words of the other laws.
pub proof fn proposals_are_made_as_the_laws_say(
    request: ReflectiveProposalRequest,
    value: Json,
    text: &str,
    other: &str,
)
    ensures
        forall|template: Option<String>, r: String| #[trigger]
            call_ensures(render_gepa_proposer_prompt, (&request, &template), r) ==> r@
                == proposer_prompt(request@, opt_view(template)),
        forall|values: PromptTemplateValues, r: String| #[trigger]
            call_ensures(render_prompt_template, (text, &values), r) ==> r@ == filled(
                text@,
                values.parent_candidate_id@,
                values.mutable_components_json@,
                values.evidence_json@,
                values.output_schema_json@,
            ),
        forall|r: Json| #[trigger]
            call_ensures(with_proposal_artifact_refs, (value, text, other), r) ==> r@
                == with_artifact_refs(value@, text@, other@),
        forall|
            decoded: Result<Vec<CandidateProposal>, String>,
            r: Result<Vec<CandidateProposal>, HarnessOptError>,
        | #[trigger]
            call_ensures(parse_candidate_proposals, (&value, decoded), r) ==> list_outcome(r)
                == proposals_of(value@, list_or_text(decoded)),
        forall|pieces: Vec<String>, r: String| #[trigger]
            call_ensures(assistant_prose, (&pieces,), r) ==> r@ == joined(views(pieces@), ""@),
        forall|runs: &[ExampleRun], texts: &[String], r: Json| #[trigger]
            call_ensures(render_reflective_evidence, (runs, texts), r) ==> r@ == evidence(
                views(runs@),
                views(texts@),
            ),
        forall|asked: StrategyRequest, texts: &[String], r: ReflectiveProposalRequest| #[trigger]
            call_ensures(reflective_request, (asked, texts), r) ==> r@ == reflective(
                asked@,
                views(texts@),
            ),
        forall|record: TraceRecord, r: Json| #[trigger]
            call_ensures(render_trace_record, (&record,), r) ==> r@ == rendered_record(record@),
        forall|r: Json| #[trigger]
            call_ensures(proposal_output_schema, (), r) ==> r@ == output_schema(),
{
}

/// The configurations of the commands have what the caller says, and the numbers of the tasks
/// otherwise: a run that only evaluates makes no iterations and has no time limit.
pub proof fn configurations_have_what_the_caller_says(
    calls: u64,
    size: usize,
    task_lm: &str,
    reflection_lm: &str,
    settings: ToybenchSettings,
)
    ensures
        forall|r: OptimizationConfig| #[trigger]
            call_ensures(evaluation_config, (size,), r) ==> r@.max_iterations == Some(0usize)
                && r@.per_example_timeout_secs is None && r@.minibatch_size >= 1
                && r@.minibatch_size >= size && r@.max_metric_calls == size as u64,
        forall|r: OptimizationConfig| #[trigger]
            call_ensures(obliq_config, (calls, task_lm, reflection_lm), r) ==> r@.max_metric_calls
                == calls && r@.minibatch_size == 3 && r@.max_concurrency == 2
                && !r@.skip_perfect_score && r@.task_lm == task_lm@ && r@.reflection_lm
                == reflection_lm@ && r@.per_example_timeout_secs == Some(300u64)
                && r@.max_iterations is None && !r@.use_merge,
        forall|r: OptimizationConfig| #[trigger]
            call_ensures(synthetic_config, (calls, size, task_lm, reflection_lm), r)
                ==> r@.max_metric_calls == calls && r@.minibatch_size == size
                && r@.max_concurrency == 4 && r@.task_lm == task_lm@ && r@.reflection_lm
                == reflection_lm@ && r@.skip_perfect_score && !r@.use_merge,
        forall|r: OptimizationConfig| #[trigger]
            call_ensures(toybench_config, (&settings,), r) ==> r@.max_metric_calls
                == settings.max_metric_calls && r@.minibatch_size == settings.minibatch_size
                && r@.max_concurrency == settings.max_concurrency && r@.perfect_score
                == settings.perfect_score && r@.skip_perfect_score == settings.skip_perfect_score
                && r@.candidate_selection == settings.candidate_selection
                && r@.component_selection == settings.component_selection && r@.frontier
                == settings.frontier && r@.use_merge == settings.use_merge
                && r@.max_merge_invocations == settings.max_merge_invocations,
        forall|config: OptimizationConfig, r: OptimizationRun| #[trigger]
            call_ensures(new_run, (task_lm, reflection_lm, config), r) ==> r@.experiment_id
                == task_lm@ && r@.run_dir == reflection_lm@ && r@.config == config@
                && r@.run_id.len() == 36,
        forall|seed: Candidate, val: usize, test: usize, r: Json| #[trigger]
            call_ensures(check_document, (&seed, size, val, test), r) ==> r@ == check_report(
                seed@,
                size as nat,
                val as nat,
                test as nat,
            ),
        forall|
            state: OptimizationState,
            best: Option<String>,
            mean: Option<Json>,
            r: Json,
        | #[trigger]
            call_ensures(stats_document, (&state, &best, &mean, size), r) ==> r@ == stats_report(
                state@,
                opt_view(best),
                opt_view(mean),
                size as nat,
            ),
{
}

} // verus!
