//! What the commands of the program start with, and what they report.

use vstd::prelude::*;
use vstd::string::*;

use crate::engine::{fresh_uuid, uuid_text};
use crate::json::{
    add_member, json_texts, member_views, optional_text, or_null, text_array, unsigned_number,
    Json, JsonView,
};
use crate::model::{
    default_config, Candidate, CandidateSelection, CandidateView, ComponentSelection, FrontierMode,
    OptimizationConfig, OptimizationConfigView, OptimizationRun, OptimizationState,
    OptimizationStateView,
};
use crate::score::Score;
use crate::string_map::in_order;
use crate::views::{opt_view, Duplicate};

verus! {

/// What the command that optimizes a toybench project can set.
pub struct ToybenchSettings {
    pub max_metric_calls: u64,
    pub minibatch_size: usize,
    pub max_concurrency: usize,
    pub perfect_score: Score,
    pub skip_perfect_score: bool,
    pub candidate_selection: CandidateSelection,
    pub component_selection: ComponentSelection,
    pub frontier: FrontierMode,
    pub use_merge: bool,
    pub max_merge_invocations: usize,
}

/// The configuration of a run that optimizes a toybench project.
pub fn toybench_config(settings: &ToybenchSettings) -> (r: OptimizationConfig)
    ensures
        r@ == (OptimizationConfigView {
            max_metric_calls: settings.max_metric_calls,
            max_iterations: None,
            minibatch_size: settings.minibatch_size,
            max_concurrency: settings.max_concurrency,
            perfect_score: settings.perfect_score,
            skip_perfect_score: settings.skip_perfect_score,
            candidate_selection: settings.candidate_selection,
            component_selection: settings.component_selection,
            frontier: settings.frontier,
            use_merge: settings.use_merge,
            max_merge_invocations: settings.max_merge_invocations,
            ..default_config()
        }),
{
    OptimizationConfig {
        max_metric_calls: settings.max_metric_calls,
        max_iterations: None,
        minibatch_size: settings.minibatch_size,
        max_concurrency: settings.max_concurrency,
        perfect_score: settings.perfect_score,
        skip_perfect_score: settings.skip_perfect_score,
        candidate_selection: settings.candidate_selection,
        component_selection: settings.component_selection,
        frontier: settings.frontier,
        use_merge: settings.use_merge,
        max_merge_invocations: settings.max_merge_invocations,
        ..OptimizationConfig::default()
    }
}

/// The configuration of a run that optimizes the synthetic task. One model answers the questions,
/// and another proposes candidates.
pub fn synthetic_config(
    max_metric_calls: u64,
    minibatch_size: usize,
    task_lm: &str,
    reflection_lm: &str,
) -> (r: OptimizationConfig)
    ensures
        r@ == (OptimizationConfigView {
            max_metric_calls,
            minibatch_size,
            max_concurrency: 4,
            task_lm: task_lm@,
            reflection_lm: reflection_lm@,
            ..default_config()
        }),
{
    OptimizationConfig {
        max_metric_calls,
        minibatch_size,
        max_concurrency: 4,
        task_lm: task_lm.to_string(),
        reflection_lm: reflection_lm.to_string(),
        ..OptimizationConfig::default()
    }
}

/// The model that proposes candidates for the synthetic task: the one that is named, or that of
/// the configuration.
pub fn synthetic_proposer_model(model: &Option<String>, config: &OptimizationConfig) -> (r: String)
    ensures
        r@ == match opt_view(*model) {
            Some(name) => name,
            None => config@.reflection_lm,
        },
{
    match model {
        Some(name) => name.clone(),
        None => config.reflection_lm.clone(),
    }
}

/// The configuration of a run that optimizes the retrieval agent.
pub fn obliq_config(max_metric_calls: u64, task_lm: &str, reflection_lm: &str) -> (r:
    OptimizationConfig)
    ensures
        r@ == (OptimizationConfigView {
            max_metric_calls,
            minibatch_size: 3,
            max_concurrency: 2,
            skip_perfect_score: false,
            task_lm: task_lm@,
            reflection_lm: reflection_lm@,
            per_example_timeout_secs: Some(300),
            ..default_config()
        }),
{
    OptimizationConfig {
        max_metric_calls,
        minibatch_size: 3,
        max_concurrency: 2,
        skip_perfect_score: false,
        task_lm: task_lm.to_string(),
        reflection_lm: reflection_lm.to_string(),
        per_example_timeout_secs: Some(300),
        ..OptimizationConfig::default()
    }
}

/// The configuration of a run that evaluates one candidate on a number of examples.
pub fn evaluation_config(examples: usize) -> (r: OptimizationConfig)
    ensures
        r@ == (OptimizationConfigView {
            max_metric_calls: examples as u64,
            max_iterations: Some(0),
            minibatch_size: if examples > 1 {
                examples
            } else {
                1
            },
            max_concurrency: 4,
            per_example_timeout_secs: None,
            ..default_config()
        }),
{
    OptimizationConfig {
        max_metric_calls: examples as u64,
        max_iterations: Some(0),
        minibatch_size: if examples > 1 {
            examples
        } else {
            1
        },
        max_concurrency: 4,
        per_example_timeout_secs: None,
        ..OptimizationConfig::default()
    }
}

/// A run with a fresh id.
pub fn new_run(experiment_id: &str, run_dir: &str, config: OptimizationConfig) -> (r:
    OptimizationRun)
    ensures
        uuid_text(r@.run_id),
        r@.experiment_id == experiment_id@,
        r@.run_dir == run_dir@,
        r@.config == config@,
{
    OptimizationRun {
        run_id: fresh_uuid(),
        experiment_id: experiment_id.to_string(),
        run_dir: run_dir.to_string(),
        config,
    }
}

/// The name of a fresh directory for the evaluation of one candidate.
pub fn evaluation_dir_name() -> (r: String)
    ensures
        exists|suffix: Seq<char>| #[trigger]
            uuid_text(suffix) && r@ == "lash-harness-opt-eval-"@ + suffix,
{
    let suffix: String = fresh_uuid();
    let mut r: String = "lash-harness-opt-eval-".to_string();
    r.append(suffix.as_str());
    assert(uuid_text(suffix@));
    r
}

/// What is said where the binary of the retrieval agent is missing.
pub fn missing_binary_message(path: &str) -> (r: String)
    ensures
        r@ == "lash-oblique binary not found at "@ + path@
            + ". Run `cargo build --release -p lash-oblique` in the lash-oblique workspace first."@,
{
    let mut r: String = "lash-oblique binary not found at ".to_string();
    r.append(path);
    r.append(
        ". Run `cargo build --release -p lash-oblique` in the lash-oblique workspace first.",
    );
    r
}

/// The report on a project: its components and the sizes of its sets of examples.
pub open spec fn check_report(seed: CandidateView, train: nat, val: nat, test: nat) -> JsonView {
    JsonView::Object(
        seq![
            (
                "examples"@,
                JsonView::Object(
                    seq![
                        ("test"@, unsigned_number(test)),
                        ("train"@, unsigned_number(train)),
                        ("val"@, unsigned_number(val)),
                    ],
                ),
            ),
            ("mutable_components"@, text_array(in_order(seed.mutable_components.dom()))),
            ("project"@, JsonView::Text("toybench"@)),
            ("status"@, JsonView::Text("ok"@)),
        ],
    )
}

/// Makes the report on a project.
pub fn check_document(seed: &Candidate, train: usize, val: usize, test: usize) -> (r: Json)
    ensures
        r@ == check_report(seed@, train as nat, val as nat, test as nat),
{
    let ghost wanted = check_report(seed@, train as nat, val as nat, test as nat)->Object_0;
    let mut examples: Vec<(String, Json)> = Vec::new();
    add_member(&mut examples, "test", Json::unsigned(test as u64));
    add_member(&mut examples, "train", Json::unsigned(train as u64));
    add_member(&mut examples, "val", Json::unsigned(val as u64));
    assert(member_views(examples@) =~= wanted[0].1->Object_0);
    let mut members: Vec<(String, Json)> = Vec::new();
    add_member(&mut members, "examples", Json::object(examples));
    add_member(&mut members, "mutable_components", json_texts(&seed.mutable_components.keys()));
    add_member(&mut members, "project", Json::text("toybench"));
    add_member(&mut members, "status", Json::text("ok"));
    assert(member_views(members@) =~= wanted);
    Json::object(members)
}

/// The report on a run. `best` is the id of the best candidate, `mean` its mean score, and
/// `coverage` the size of the Pareto front.
pub open spec fn stats_report(
    state: OptimizationStateView,
    best: Option<Seq<char>>,
    mean: Option<JsonView>,
    coverage: nat,
) -> JsonView {
    JsonView::Object(
        seq![
            ("accepted_proposals"@, unsigned_number(state.accepted_proposals as nat)),
            ("best_candidate_id"@, optional_text(best)),
            ("best_mean_score"@, or_null(mean)),
            ("cache_hits"@, unsigned_number(state.cache_hits as nat)),
            ("cache_misses"@, unsigned_number(state.cache_misses as nat)),
            ("evaluated_candidates"@, unsigned_number(state.evaluated_candidates.len())),
            ("experiment_id"@, JsonView::Text(state.run.experiment_id)),
            ("metric_calls_used"@, unsigned_number(state.metric_calls_used as nat)),
            ("pareto_coverage"@, unsigned_number(coverage)),
            ("rejected_proposals"@, unsigned_number(state.rejected_proposals as nat)),
            ("run_id"@, JsonView::Text(state.run.run_id)),
        ],
    )
}

/// Makes the report on a run.
pub fn stats_document(
    state: &OptimizationState,
    best: &Option<String>,
    mean: &Option<Json>,
    coverage: usize,
) -> (r: Json)
    ensures
        r@ == stats_report(state@, opt_view(*best), opt_view(*mean), coverage as nat),
{
    assert(state@.evaluated_candidates.len() == state.evaluated_candidates@.len());
    let mut members: Vec<(String, Json)> = Vec::new();
    add_member(&mut members, "accepted_proposals", Json::unsigned(state.accepted_proposals));
    add_member(&mut members, "best_candidate_id", Json::optional(best));
    add_member(
        &mut members,
        "best_mean_score",
        match mean {
            Some(value) => value.duplicate(),
            None => Json::Null,
        },
    );
    add_member(&mut members, "cache_hits", Json::unsigned(state.cache_hits));
    add_member(&mut members, "cache_misses", Json::unsigned(state.cache_misses));
    add_member(
        &mut members,
        "evaluated_candidates",
        Json::unsigned(state.evaluated_candidates.len() as u64),
    );
    add_member(&mut members, "experiment_id", Json::text(state.run.experiment_id.as_str()));
    add_member(&mut members, "metric_calls_used", Json::unsigned(state.metric_calls_used));
    add_member(&mut members, "pareto_coverage", Json::unsigned(coverage as u64));
    add_member(&mut members, "rejected_proposals", Json::unsigned(state.rejected_proposals));
    add_member(&mut members, "run_id", Json::text(state.run.run_id.as_str()));
    assert(member_views(members@) =~= stats_report(
        state@,
        opt_view(*best),
        opt_view(*mean),
        coverage as nat,
    )->Object_0);
    Json::object(members)
}

} // verus!
