use lash_harness_opt::commands::{
    check_document, evaluation_config, evaluation_dir_name, missing_binary_message, new_run,
    obliq_config, stats_document, synthetic_config, synthetic_proposer_model, toybench_config,
    ToybenchSettings,
};
use lash_harness_opt::optimizer::resume_run;
use lash_harness_opt::state::{
    check_stored_run, collect_candidates, load_optimization_state, parse_split,
};
use lash_harness_opt::{
    Candidate, CandidateRecord, CandidateSelection, ComponentConstraints, ComponentSelection,
    ComponentValue, EvaluationRecord, FrontierMode, Json, MutableComponent, OptimizationConfig,
    OptimizationRun, RunArtifacts, Score, Split, StoreStats, StringMap, TraceBundle,
};

fn score(x: f64) -> Score {
    Score { bits: x.to_bits() }
}

fn run() -> OptimizationRun {
    OptimizationRun {
        run_id: "r".to_string(),
        experiment_id: "x".to_string(),
        run_dir: "dir".to_string(),
        config: OptimizationConfig::default(),
    }
}

fn candidate(id: &str) -> Candidate {
    Candidate {
        id: id.to_string(),
        parent_id: None,
        mutable_components: StringMap::new(),
        immutable_context: StringMap::new(),
        metadata: StringMap::new(),
    }
}

fn record(id: &str) -> CandidateRecord {
    CandidateRecord {
        candidate: candidate(id),
        fingerprint: String::new(),
        parent_ids: vec![],
        generation: 0,
        source_strategy: "seed".to_string(),
        component_cursor: 0,
        discovery_budget: 0,
    }
}

fn evaluation(candidate_id: &str, example_id: &str, x: f64, traced: bool) -> EvaluationRecord {
    EvaluationRecord {
        candidate_id: candidate_id.to_string(),
        candidate_fingerprint: "f".to_string(),
        example_id: example_id.to_string(),
        split: Split::Val,
        score: score(x),
        metrics: StringMap::new(),
        feedback: None,
        diagnostics: StringMap::new(),
        artifacts: RunArtifacts::default(),
        trace: if traced {
            Some(TraceBundle {
                example_id: example_id.to_string(),
                records: vec![],
            })
        } else {
            None
        },
        metric_calls: 2,
        cache_hit: false,
    }
}

#[test]
fn evaluations_are_collected_by_candidate() {
    let all = collect_candidates(
        &run(),
        &[record("b"), record("a")],
        &[
            evaluation("a", "e", 0.5, true),
            evaluation("gone", "e", 0.9, false),
            evaluation("a", "e", 1.0, false),
            evaluation("b", "f", 0.25, false),
        ],
    );
    let ids: Vec<&str> = all.iter().map(|e| e.candidate.id.as_str()).collect();
    assert_eq!(ids, ["a", "b"]);
    let a = all[0].evaluations.get("e").unwrap();
    assert_eq!(a.score, score(1.0));
    assert_eq!(a.passed, Some(true));
    assert!(all[0].traces.contains_key("e"));
    assert_eq!(all[0].metric_calls.get("e"), Some(&2));
    assert_eq!(all[1].evaluations.get("f").unwrap().passed, Some(false));
    assert!(!all[1].evaluations.contains_key("e"));
    let stats = StoreStats {
        metric_calls_used: 1,
        cache_hits: 2,
        cache_misses: 3,
        accepted_proposals: 4,
        rejected_proposals: 5,
        candidates: 2,
        evaluations: 4,
    };
    let state = load_optimization_state(&run(), all.clone(), Some(1), &stats);
    assert_eq!(state.best_candidate_id.as_deref(), Some("b"));
    assert_eq!(state.cache_misses, 3);
    assert_eq!(state.rejected_proposals, 5);
    assert_eq!(state.evaluated_candidates, all);
    let state = load_optimization_state(&run(), vec![], None, &stats);
    assert_eq!(state.best_candidate_id, None);
}

#[test]
fn stored_runs_have_to_fit() {
    assert!(check_stored_run(&run(), &run()).is_ok());
    let mut elsewhere = run();
    elsewhere.run_dir = "other".to_string();
    elsewhere.run_id = "q".to_string();
    assert!(check_stored_run(&elsewhere, &run()).is_ok());
    let message = "store error: existing harness-opt.sqlite has incompatible run config";
    let mut other = run();
    other.experiment_id = "y".to_string();
    assert_eq!(check_stored_run(&other, &run()).unwrap_err().message(), message);
    let mut config = run();
    config.config.max_metric_calls = 1;
    assert_eq!(check_stored_run(&config, &run()).unwrap_err().message(), message);
    let mut nan = run();
    nan.config.perfect_score = score(f64::NAN);
    assert_eq!(check_stored_run(&nan, &nan).unwrap_err().message(), message);
}

#[test]
fn splits_are_read_by_name() {
    for split in [Split::Train, Split::Val, Split::Test] {
        assert_eq!(parse_split(split.as_str()), Ok(split));
    }
    assert_eq!(parse_split("dev"), Err("unknown split dev".to_string()));
}

#[test]
fn resumed_runs_take_budget_and_directory_from_the_caller() {
    let mut stored = run();
    stored.run_id = "stored".to_string();
    stored.run_dir = "far".to_string();
    stored.config.max_metric_calls = 1;
    stored.config.minibatch_size = 99;
    let resumed = resume_run(run(), Some(stored));
    assert_eq!(resumed.run_id, "stored");
    assert_eq!(resumed.run_dir, "dir");
    assert_eq!(resumed.config.max_metric_calls, 64);
    assert_eq!(resumed.config.minibatch_size, 99);
    assert_eq!(resume_run(run(), None), run());
}

#[test]
fn defaults_are_those_of_the_optimizer() {
    let config = OptimizationConfig::default();
    assert_eq!(config.max_metric_calls, 64);
    assert_eq!(config.max_iterations, None);
    assert_eq!(config.minibatch_size, 8);
    assert_eq!(config.perfect_score, score(1.0));
    assert!(config.skip_perfect_score);
    assert_eq!(config.candidate_selection, CandidateSelection::Pareto);
    assert_eq!(config.per_example_timeout_secs, Some(300));
    assert_eq!(CandidateSelection::default(), CandidateSelection::Pareto);
    assert_eq!(ComponentSelection::default(), ComponentSelection::RoundRobin);
    assert_eq!(FrontierMode::default(), FrontierMode::Instance);
}

#[test]
fn commands_configure_their_runs() {
    let toybench = toybench_config(&ToybenchSettings {
        max_metric_calls: 1,
        minibatch_size: 2,
        max_concurrency: 3,
        perfect_score: score(0.5),
        skip_perfect_score: false,
        candidate_selection: CandidateSelection::EpsilonGreedy,
        component_selection: ComponentSelection::All,
        frontier: FrontierMode::Hybrid,
        use_merge: true,
        max_merge_invocations: 4,
    });
    assert_eq!(toybench.max_merge_invocations, 4);
    assert_eq!(toybench.frontier, FrontierMode::Hybrid);
    assert_eq!(toybench.per_example_timeout_secs, Some(300));
    let synthetic = synthetic_config(30, 3, "task", "reflect");
    assert_eq!(synthetic.max_concurrency, 4);
    assert_eq!(synthetic.task_lm, "task");
    assert_eq!(synthetic_proposer_model(&None, &synthetic), "reflect");
    assert_eq!(
        synthetic_proposer_model(&Some("m".to_string()), &synthetic),
        "m"
    );
    let obliq = obliq_config(100, "t", "r");
    assert_eq!(obliq.minibatch_size, 3);
    assert!(!obliq.skip_perfect_score);
    let eval = evaluation_config(0);
    assert_eq!(eval.minibatch_size, 1);
    assert_eq!(eval.max_iterations, Some(0));
    assert_eq!(eval.per_example_timeout_secs, None);
    let made = new_run("x", "d", obliq.clone());
    assert_eq!(made.config, obliq);
    assert_eq!(made.run_id.len(), 36);
    assert!(evaluation_dir_name().starts_with("lash-harness-opt-eval-"));
    assert!(missing_binary_message("p").starts_with("lash-oblique binary not found at p. Run"));
}

#[test]
fn reports_have_their_exact_form() {
    let seed = candidate("seed").with_component(MutableComponent {
        id: "c".to_string(),
        description: None,
        value: ComponentValue::Json { value: Json::Null },
        constraints: ComponentConstraints::default(),
    });
    assert_eq!(
        check_document(&seed, 1, 2, 3).to_compact(),
        "{\"examples\":{\"test\":3,\"train\":1,\"val\":2},\"mutable_components\":[\"c\"],\
         \"project\":\"toybench\",\"status\":\"ok\"}"
    );
    let state = load_optimization_state(&run(), vec![], None, &StoreStats::default());
    assert_eq!(
        stats_document(
            &state,
            &Some("b".to_string()),
            &Some(Json::double(score(0.5), "0.5")),
            7
        )
        .to_compact(),
        "{\"accepted_proposals\":0,\"best_candidate_id\":\"b\",\"best_mean_score\":0.5,\
         \"cache_hits\":0,\"cache_misses\":0,\"evaluated_candidates\":0,\
         \"experiment_id\":\"x\",\"metric_calls_used\":0,\"pareto_coverage\":7,\
         \"rejected_proposals\":0,\"run_id\":\"r\"}"
    );
}
