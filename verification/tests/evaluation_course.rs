use lash_harness_opt::evaluation::{
    concurrency, gather_runs, settle_example, timeout_run, trace_context, CachedEvaluation,
    EvaluationAction, EvaluationEvent, ExampleOutcome,
};
use lash_harness_opt::{
    candidate_fingerprint, Candidate, CandidateEvaluation, EvaluationResult, ExampleRun,
    HarnessExample, HarnessOptError, Json, OptimizationConfig, OptimizationRun, RunArtifacts,
    Score, Split, StringMap, TraceBundle,
};

fn candidate() -> Candidate {
    Candidate {
        id: "c".to_string(),
        parent_id: Some("p".to_string()),
        mutable_components: StringMap::new(),
        immutable_context: StringMap::new(),
        metadata: StringMap::new(),
    }
}

fn example(id: &str) -> HarnessExample {
    HarnessExample {
        id: id.to_string(),
        split: Split::Val,
        input: Json::Null,
        expected: None,
        metadata: StringMap::new(),
    }
}

fn run_of(id: &str, score: f64, metric_calls: u64) -> ExampleRun {
    ExampleRun {
        example: example(id),
        result: EvaluationResult {
            example_id: id.to_string(),
            split: Split::Val,
            score: Score {
                bits: score.to_bits(),
            },
            passed: None,
            feedback: None,
            metrics: StringMap::new(),
            diagnostics: StringMap::new(),
        },
        trace: Some(TraceBundle {
            example_id: id.to_string(),
            records: vec![],
        }),
        artifacts: RunArtifacts::default(),
        metric_calls,
    }
}

fn evaluation_of(runs: Vec<ExampleRun>) -> CandidateEvaluation {
    gather_runs(candidate(), runs.into_iter().map(Ok).collect()).unwrap()
}

#[test]
fn hits_are_taken_over_and_misses_evaluated() {
    let examples = [example("a"), example("b"), example("c")];
    let (state, action) = CachedEvaluation::start(&candidate(), &examples);
    let fingerprint = candidate_fingerprint(&candidate()).unwrap();
    assert_eq!(
        action,
        EvaluationAction::LookUp {
            fingerprint: fingerprint.clone(),
            example: example("a")
        }
    );
    let (state, action) = state.step(EvaluationEvent::Cached(None));
    assert!(matches!(action, EvaluationAction::LookUp { ref example, .. } if example.id == "b"));
    let (state, action) = state.step(EvaluationEvent::Cached(Some(run_of("b", 0.5, 7))));
    match action {
        EvaluationAction::Record(record) => {
            assert!(record.cache_hit);
            assert_eq!(record.metric_calls, 0);
            assert_eq!(record.example_id, "b");
            assert_eq!(record.candidate_id, "c");
        }
        other => panic!("{other:?}"),
    }
    let (state, action) = state.step(EvaluationEvent::Recorded);
    assert!(matches!(action, EvaluationAction::LookUp { ref example, .. } if example.id == "c"));
    let (state, action) = state.step(EvaluationEvent::Cached(None));
    match action {
        EvaluationAction::Evaluate { examples, .. } => {
            let ids: Vec<&str> = examples.iter().map(|e| e.id.as_str()).collect();
            assert_eq!(ids, ["a", "c"]);
        }
        other => panic!("{other:?}"),
    }
    let evaluated = evaluation_of(vec![run_of("c", 1.0, 0), run_of("a", 0.25, 3)]);
    let (state, action) = state.step(EvaluationEvent::Evaluated(evaluated));
    match action {
        EvaluationAction::Store { fingerprint: f, run } => {
            assert_eq!(f, fingerprint);
            assert_eq!(run.example.id, "a");
            assert_eq!(run.metric_calls, 3);
        }
        other => panic!("{other:?}"),
    }
    let (state, action) = state.step(EvaluationEvent::Stored);
    match action {
        EvaluationAction::Record(record) => {
            assert!(!record.cache_hit);
            assert_eq!(record.metric_calls, 3);
        }
        other => panic!("{other:?}"),
    }
    let (state, action) = state.step(EvaluationEvent::Recorded);
    assert!(matches!(action, EvaluationAction::Store { ref run, .. } if run.example.id == "c"));
    let (state, action) = state.step(EvaluationEvent::Stored);
    match action {
        EvaluationAction::Record(record) => assert_eq!(record.metric_calls, 1),
        other => panic!("{other:?}"),
    }
    let (_, action) = state.step(EvaluationEvent::Recorded);
    match action {
        EvaluationAction::Finish(evaluation) => {
            assert_eq!(evaluation.evaluations.keys(), ["a", "b", "c"]);
            assert_eq!(evaluation.traces.keys(), ["a", "b", "c"]);
            assert_eq!(evaluation.metric_calls.get("a"), Some(&3));
            assert_eq!(evaluation.metric_calls.get("b"), Some(&0));
            assert_eq!(evaluation.metric_calls.get("c"), Some(&0));
        }
        other => panic!("{other:?}"),
    }
}

#[test]
fn a_full_cache_needs_no_evaluation() {
    let (state, _) = CachedEvaluation::start(&candidate(), &[example("a")]);
    let (state, _) = state.step(EvaluationEvent::Cached(Some(run_of("a", 1.0, 2))));
    let (_, action) = state.step(EvaluationEvent::Recorded);
    assert!(matches!(action, EvaluationAction::Finish(ref e) if e.evaluations.keys() == ["a"]));
    let (_, action) = CachedEvaluation::start(&candidate(), &[]);
    assert!(matches!(action, EvaluationAction::Finish(ref e) if e.evaluations.is_empty()));
}

#[test]
fn unknown_examples_fail_the_evaluation() {
    let (state, _) = CachedEvaluation::start(&candidate(), &[example("a")]);
    let (state, _) = state.step(EvaluationEvent::Cached(None));
    let evaluated = evaluation_of(vec![run_of("zzz", 1.0, 1)]);
    let (_, action) = state.step(EvaluationEvent::Evaluated(evaluated));
    assert_eq!(
        action,
        EvaluationAction::Fail(HarnessOptError::Store(
            "evaluated unknown example".to_string()
        ))
    );
}

#[test]
fn failed_actions_fail_the_evaluation() {
    let (state, _) = CachedEvaluation::start(&candidate(), &[example("a")]);
    let (_, action) = state.step(EvaluationEvent::Failed(HarnessOptError::Cancelled));
    assert_eq!(action, EvaluationAction::Fail(HarnessOptError::Cancelled));
}

#[test]
fn runs_are_gathered_up_to_the_first_failure() {
    let all = evaluation_of(vec![run_of("b", 0.1, 1), run_of("a", 0.2, 2), run_of("b", 0.3, 4)]);
    assert_eq!(all.evaluations.keys(), ["a", "b"]);
    assert_eq!(all.metric_calls.get("b"), Some(&4));
    assert_eq!(
        all.evaluations.get("b").unwrap().score.bits,
        0.3f64.to_bits()
    );
    let failed = gather_runs(
        candidate(),
        vec![
            Ok(run_of("a", 1.0, 1)),
            Err(HarnessOptError::Harness("first".to_string())),
            Err(HarnessOptError::Cancelled),
        ],
    );
    assert_eq!(
        failed.unwrap_err(),
        HarnessOptError::Harness("first".to_string())
    );
}

#[test]
fn timeouts_are_failed_runs() {
    let run = timeout_run(&example("a"), 300);
    assert_eq!(run.result.score, Score::zero());
    assert_eq!(run.result.passed, Some(false));
    assert_eq!(
        run.result.feedback.as_deref(),
        Some("TIMEOUT: agent did not complete within 300s")
    );
    assert_eq!(
        run.result.diagnostics.get("timeout_secs").unwrap().as_u64(),
        Some(300)
    );
    assert_eq!(
        run.result.diagnostics.get("turn_outcome").unwrap().as_str().unwrap(),
        "timeout"
    );
    assert_eq!(run.metric_calls, 1);
}

#[test]
fn examples_are_settled_by_their_outcome() {
    let e = example("a");
    assert_eq!(
        settle_example(&e, ExampleOutcome::Cancelled).unwrap_err(),
        HarnessOptError::Cancelled
    );
    assert_eq!(
        settle_example(&e, ExampleOutcome::Broken("gone".to_string())).unwrap_err(),
        HarnessOptError::Harness("gone".to_string())
    );
    assert_eq!(
        settle_example(&e, ExampleOutcome::TimedOut(9)).unwrap(),
        timeout_run(&e, 9)
    );
    assert_eq!(
        settle_example(&e, ExampleOutcome::Completed(Ok(run_of("a", 1.0, 1)))).unwrap(),
        run_of("a", 1.0, 1)
    );
}

#[test]
fn contexts_name_run_candidate_and_example() {
    let mut run = OptimizationRun {
        run_id: "r".to_string(),
        experiment_id: "x".to_string(),
        run_dir: "d".to_string(),
        config: OptimizationConfig::default(),
    };
    let context = trace_context(&run, &candidate(), &example("a"));
    assert_eq!(context.run_id.as_deref(), Some("r"));
    assert_eq!(context.experiment_id.as_deref(), Some("x"));
    assert_eq!(context.candidate_id.as_deref(), Some("c"));
    assert_eq!(context.candidate_parent_id.as_deref(), Some("p"));
    assert_eq!(context.example_id.as_deref(), Some("a"));
    assert_eq!(context.split.as_deref(), Some("val"));
    assert!(context.metadata.is_empty());
    assert_eq!(concurrency(&run), 4);
    run.config.max_concurrency = 0;
    assert_eq!(concurrency(&run), 1);
}

#[test]
fn a_second_evaluation_finds_what_the_first_stored() {
    let examples = [example("b"), example("a")];
    let mut cache: Vec<(String, ExampleRun)> = vec![];
    let mut asked = 0;
    let mut calls = 0;
    let mut results = vec![];
    for id in ["c", "other"] {
        let mut subject = candidate();
        subject.id = id.to_string();
        let (mut state, mut action) = CachedEvaluation::start(&subject, &examples);
        let evaluation = loop {
            let event = match action {
                EvaluationAction::LookUp { fingerprint, example } => EvaluationEvent::Cached(
                    cache
                        .iter()
                        .find(|(f, run)| *f == fingerprint && run.example.id == example.id)
                        .map(|(_, run)| run.clone()),
                ),
                EvaluationAction::Record(record) => {
                    calls += record.metric_calls;
                    EvaluationEvent::Recorded
                }
                EvaluationAction::Evaluate { examples, .. } => {
                    asked += examples.len();
                    EvaluationEvent::Evaluated(evaluation_of(
                        examples.iter().map(|e| run_of(&e.id, 0.5, 2)).collect(),
                    ))
                }
                EvaluationAction::Store { fingerprint, run } => {
                    cache.push((fingerprint, run));
                    EvaluationEvent::Stored
                }
                EvaluationAction::Finish(evaluation) => break evaluation,
                EvaluationAction::Fail(error) => panic!("{}", error.message()),
            };
            (state, action) = state.step(event);
        };
        assert_eq!(evaluation.candidate, subject);
        results.push(evaluation);
    }
    assert_eq!(asked, 2);
    assert_eq!(calls, 4);
    assert_eq!(results[0].evaluations, results[1].evaluations);
    assert_eq!(results[1].metric_calls.get("a"), Some(&0));
    assert_eq!(results[1].metric_calls.get("b"), Some(&0));
}
