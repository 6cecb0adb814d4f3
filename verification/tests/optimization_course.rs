use lash_harness_opt::evaluation::{
    gather_runs, CachedEvaluation, EvaluationAction, EvaluationEvent,
};
use lash_harness_opt::optimizer::{
    HarnessOptimization, MergePlan, OptimizerAction, OptimizerEvent, Survey,
};
use lash_harness_opt::state::{check_stored_run, collect_candidates, load_optimization_state};
use lash_harness_opt::synthetic_task::{
    build_train_examples, build_val_examples, SYNTH_QA_COMPONENT_ID, SYNTH_SEED_PROMPT,
};
use lash_harness_opt::{
    Candidate, CandidateEvaluation, CandidateProposal, CandidateRecord, ComponentConstraints,
    ComponentPatch, ComponentValue, EvaluationRecord, EvaluationResult, ExampleRun,
    HarnessExample, HarnessOptError, Json, MutableComponent, OptimizationConfig, OptimizationRun,
    OptimizationState, ProposalRecord, RunArtifacts, Score, Split, StoreStats, StrategyRequest,
    StringMap,
};

fn score(x: f64) -> Score {
    Score { bits: x.to_bits() }
}

fn example(id: &str, split: Split) -> HarnessExample {
    HarnessExample {
        id: id.to_string(),
        split,
        input: Json::object(vec![("question".to_string(), Json::text(id))]),
        expected: None,
        metadata: StringMap::new(),
    }
}

fn seed_candidate() -> Candidate {
    Candidate {
        id: "seed".to_string(),
        parent_id: None,
        mutable_components: StringMap::new(),
        immutable_context: StringMap::new(),
        metadata: StringMap::new(),
    }
    .with_component(MutableComponent {
        id: "instruction".to_string(),
        description: Some("instruction".to_string()),
        value: ComponentValue::Text {
            text: "do ok".to_string(),
        },
        constraints: ComponentConstraints {
            max_chars: Some(32),
            ..Default::default()
        },
    })
}

fn text_of(candidate: &Candidate, id: &str) -> String {
    match &candidate.component(id).unwrap().value {
        ComponentValue::Text { text } => text.clone(),
        _ => String::new(),
    }
}

fn mean_score(evaluation: &CandidateEvaluation) -> f64 {
    let keys = evaluation.evaluations.keys();
    if keys.is_empty() {
        return 0.0;
    }
    let sum: f64 = keys
        .iter()
        .map(|k| f64::from_bits(evaluation.evaluations.get(k).unwrap().score.bits))
        .sum();
    sum / keys.len() as f64
}

fn best_index(states: &[CandidateEvaluation]) -> Option<usize> {
    let mut best: Option<usize> = None;
    for (i, state) in states.iter().enumerate() {
        if best.is_none_or(|b| mean_score(state) > mean_score(&states[b])) {
            best = Some(i);
        }
    }
    best
}

#[derive(Default)]
struct MemoryStore {
    run: Option<OptimizationRun>,
    candidates: Vec<CandidateRecord>,
    evaluations: Vec<EvaluationRecord>,
    cache: Vec<(String, ExampleRun)>,
    proposals: Vec<ProposalRecord>,
    announced: usize,
}

impl MemoryStore {
    fn stats(&self) -> StoreStats {
        StoreStats {
            metric_calls_used: self
                .evaluations
                .iter()
                .filter(|e| !e.cache_hit)
                .map(|e| e.metric_calls)
                .sum(),
            cache_hits: self.evaluations.iter().filter(|e| e.cache_hit).count() as u64,
            cache_misses: self.evaluations.iter().filter(|e| !e.cache_hit).count() as u64,
            accepted_proposals: self.proposals.iter().filter(|p| p.accepted).count() as u64,
            rejected_proposals: self.proposals.iter().filter(|p| !p.accepted).count() as u64,
            candidates: self.candidates.len(),
            evaluations: self.evaluations.len(),
        }
    }

    fn evaluated(&self, run: &OptimizationRun) -> Vec<CandidateEvaluation> {
        collect_candidates(run, &self.candidates, &self.evaluations)
    }

    fn state(&self, run: &OptimizationRun) -> OptimizationState {
        let evaluated = self.evaluated(run);
        let best = best_index(&evaluated);
        load_optimization_state(run, evaluated, best, &self.stats())
    }
}

fn evaluate_cached(
    store: &mut MemoryStore,
    candidate: &Candidate,
    examples: &[HarnessExample],
    project: &dyn Fn(&Candidate, &HarnessExample) -> f64,
) -> CandidateEvaluation {
    let (mut state, mut action) = CachedEvaluation::start(candidate, examples);
    loop {
        let event = match action {
            EvaluationAction::LookUp { fingerprint, example } => EvaluationEvent::Cached(
                store
                    .cache
                    .iter()
                    .find(|(f, run)| {
                        *f == fingerprint
                            && run.example.id == example.id
                            && run.example.split == example.split
                    })
                    .map(|(_, run)| run.clone()),
            ),
            EvaluationAction::Record(record) => {
                store.evaluations.push(record);
                EvaluationEvent::Recorded
            }
            EvaluationAction::Store { fingerprint, run } => {
                store.cache.push((fingerprint, run));
                EvaluationEvent::Stored
            }
            EvaluationAction::Evaluate { candidate, examples } => {
                let runs = examples
                    .iter()
                    .map(|example| {
                        let x = project(&candidate, example);
                        Ok(ExampleRun {
                            example: example.clone(),
                            result: EvaluationResult {
                                example_id: example.id.clone(),
                                split: example.split,
                                score: score(x),
                                passed: Some(x > 0.5),
                                feedback: None,
                                metrics: StringMap::new(),
                                diagnostics: StringMap::new(),
                            },
                            trace: None,
                            artifacts: RunArtifacts::default(),
                            metric_calls: 1,
                        })
                    })
                    .collect();
                EvaluationEvent::Evaluated(gather_runs(candidate, runs).unwrap())
            }
            EvaluationAction::Finish(evaluation) => return evaluation,
            EvaluationAction::Fail(error) => panic!("{}", error.message()),
        };
        (state, action) = state.step(event);
    }
}

struct Driver<'a> {
    project: &'a dyn Fn(&Candidate, &HarnessExample) -> f64,
    propose: &'a dyn Fn(StrategyRequest) -> Vec<CandidateProposal>,
    merge: &'a dyn Fn(&[CandidateEvaluation]) -> Option<MergePlan>,
    cancelled: bool,
}

fn drive(
    driver: &Driver,
    store: &mut MemoryStore,
    run: OptimizationRun,
    seed: Candidate,
    train: Vec<HarnessExample>,
    val: Vec<HarnessExample>,
) -> Result<OptimizationState, HarnessOptError> {
    let (mut state, mut action) = HarnessOptimization::start(run.clone(), seed, train, val);
    loop {
        let event = match action {
            OptimizerAction::CreateRunDir(_) => OptimizerEvent::Completed,
            OptimizerAction::InitRun(run) => match &store.run {
                Some(existing) => match check_stored_run(existing, &run) {
                    Ok(()) => OptimizerEvent::Completed,
                    Err(error) => OptimizerEvent::Failed(error),
                },
                None => {
                    store.run = Some(run);
                    OptimizerEvent::Completed
                }
            },
            OptimizerAction::LoadRun => OptimizerEvent::Run(store.run.clone()),
            OptimizerAction::LoadCandidates => {
                OptimizerEvent::Candidates(store.candidates.clone())
            }
            OptimizerAction::UpsertCandidate(record) => {
                store.candidates.push(record);
                OptimizerEvent::Completed
            }
            OptimizerAction::Evaluate { candidate, examples } => {
                let evaluation = evaluate_cached(store, &candidate, &examples, driver.project);
                let mean = score(mean_score(&evaluation));
                OptimizerEvent::Evaluated { evaluation, mean }
            }
            OptimizerAction::CheckCancelled => OptimizerEvent::Cancelled(driver.cancelled),
            OptimizerAction::LoadStats => OptimizerEvent::Stats(store.stats()),
            OptimizerAction::TakeSurvey => {
                let evaluated = store.evaluated(&run);
                let best = best_index(&evaluated);
                OptimizerEvent::Surveyed(Survey {
                    best,
                    frontier: evaluated.clone(),
                    evaluated,
                })
            }
            OptimizerAction::Propose(request) => {
                OptimizerEvent::Proposals((driver.propose)(request))
            }
            OptimizerAction::InsertProposal(record) => {
                store.proposals.push(record);
                OptimizerEvent::Completed
            }
            OptimizerAction::NotifyAccepted(_) => {
                store.announced += 1;
                assert!(store.proposals.last().unwrap().accepted);
                OptimizerEvent::Completed
            }
            OptimizerAction::FindMerge { .. } => {
                OptimizerEvent::Merge((driver.merge)(&store.evaluated(&run)))
            }
            OptimizerAction::LoadState => OptimizerEvent::State(store.state(&run)),
            OptimizerAction::Finish(state) => return Ok(state),
            OptimizerAction::Fail(error) => return Err(error),
        };
        assert!(state.fits_machine());
        (state, action) = state.step(event);
    }
}

fn score_project(candidate: &Candidate, _: &HarnessExample) -> f64 {
    if text_of(candidate, "instruction").contains("better") {
        1.0
    } else {
        0.1
    }
}

fn propose_text(id: &str, text: &str, request: StrategyRequest) -> Vec<CandidateProposal> {
    vec![CandidateProposal {
        parent_candidate_id: request.evidence.parent.id,
        patches: vec![ComponentPatch::ReplaceValue {
            component_id: id.to_string(),
            value: ComponentValue::Text {
                text: text.to_string(),
            },
        }],
        rationale: None,
        metadata: StringMap::new(),
    }]
}

fn better_proposer(request: StrategyRequest) -> Vec<CandidateProposal> {
    propose_text("instruction", "do better", request)
}

fn worse_proposer(request: StrategyRequest) -> Vec<CandidateProposal> {
    propose_text("instruction", "do ok", request)
}

fn no_merge(_: &[CandidateEvaluation]) -> Option<MergePlan> {
    None
}

fn mock_run(config: OptimizationConfig) -> OptimizationRun {
    OptimizationRun {
        run_id: "run".to_string(),
        experiment_id: "mock".to_string(),
        run_dir: "tmp".to_string(),
        config,
    }
}

fn mock_config() -> OptimizationConfig {
    OptimizationConfig {
        max_metric_calls: 8,
        max_iterations: Some(1),
        minibatch_size: 1,
        max_concurrency: 1,
        per_example_timeout_secs: None,
        ..OptimizationConfig::default()
    }
}

fn trainset() -> Vec<HarnessExample> {
    vec![example("ex", Split::Train)]
}

fn best(state: &OptimizationState) -> &CandidateEvaluation {
    &state.evaluated_candidates[best_index(&state.evaluated_candidates).unwrap()]
}

#[test]
fn mocked_harness_improves_from_reflective_gepa_proposal() {
    let mut store = MemoryStore::default();
    let driver = Driver {
        project: &score_project,
        propose: &better_proposer,
        merge: &no_merge,
        cancelled: false,
    };
    let state = drive(
        &driver,
        &mut store,
        mock_run(mock_config()),
        seed_candidate(),
        trainset(),
        trainset(),
    )
    .unwrap();

    assert!(mean_score(best(&state)) > 0.5);
    assert_eq!(state.metric_calls_used, 2);
    assert!(state.cache_hits >= 1);
    assert_eq!(store.announced, 1);
    let accepted = store.candidates.last().unwrap();
    assert_eq!(accepted.source_strategy, "reflection");
    assert_eq!(accepted.generation, 1);
    assert_eq!(accepted.parent_ids, ["seed"]);
    assert_eq!(accepted.component_cursor, 1);
    assert_eq!(accepted.discovery_budget, 6);
    assert_eq!(store.proposals[0].reason, "strict_sum_improved");
    assert_eq!(store.proposals[0].minibatch_ids, ["ex"]);
    assert_eq!(state.best_candidate_id.as_deref(), Some(accepted.candidate.id.as_str()));
}

#[test]
fn reflective_gepa_rejects_non_improving_minibatch_proposal() {
    let mut store = MemoryStore::default();
    let driver = Driver {
        project: &score_project,
        propose: &worse_proposer,
        merge: &no_merge,
        cancelled: false,
    };
    let state = drive(
        &driver,
        &mut store,
        mock_run(mock_config()),
        seed_candidate(),
        trainset(),
        trainset(),
    )
    .unwrap();

    assert_eq!(state.evaluated_candidates.len(), 1);
    assert_eq!(best(&state).candidate.id, "seed");
    assert_eq!(store.announced, 0);
    assert_eq!(store.proposals[0].reason, "strict_sum_not_improved");
    assert!(!store.proposals[0].accepted);
}

#[test]
fn skip_perfect_score_avoids_proposer_call() {
    let mut store = MemoryStore::default();
    let calls = std::cell::Cell::new(0usize);
    let counting = |request: StrategyRequest| {
        calls.set(calls.get() + 1);
        better_proposer(request)
    };
    let driver = Driver {
        project: &score_project,
        propose: &counting,
        merge: &no_merge,
        cancelled: false,
    };
    let state = drive(
        &driver,
        &mut store,
        mock_run(OptimizationConfig {
            perfect_score: score(0.1),
            skip_perfect_score: true,
            ..mock_config()
        }),
        seed_candidate(),
        trainset(),
        trainset(),
    )
    .unwrap();

    assert_eq!(calls.get(), 0);
    assert_eq!(state.rejected_proposals, 1);
    assert_eq!(store.proposals[0].reason, "skipped_perfect_minibatch");
    assert_eq!(store.proposals[0].candidate_id, None);
}

fn synthetic_project(candidate: &Candidate, example: &HarnessExample) -> f64 {
    let instruction = text_of(candidate, SYNTH_QA_COMPONENT_ID);
    let ty = example
        .metadata
        .get("type")
        .and_then(Json::as_str)
        .map(|s| s.as_str())
        .unwrap_or("factual");
    if ty == "format_sensitive" && !instruction.contains("concise") {
        0.0
    } else {
        1.0
    }
}

fn concise_proposer(request: StrategyRequest) -> Vec<CandidateProposal> {
    propose_text(
        SYNTH_QA_COMPONENT_ID,
        "Be concise. Answer the question with the exact value only.",
        request,
    )
}

#[test]
fn synthetic_task_optimization_accepts_better_prompt_without_llm() {
    let seed = Candidate {
        id: "seed".to_string(),
        parent_id: None,
        mutable_components: StringMap::new(),
        immutable_context: StringMap::new(),
        metadata: StringMap::new(),
    }
    .with_component(MutableComponent {
        id: SYNTH_QA_COMPONENT_ID.to_string(),
        description: None,
        value: ComponentValue::Text {
            text: SYNTH_SEED_PROMPT.to_string(),
        },
        constraints: ComponentConstraints {
            max_chars: Some(2000),
            preserve_terms: vec![],
            forbidden_terms: vec![],
            format_hint: None,
        },
    });
    let run = OptimizationRun {
        run_id: "test-run".to_string(),
        experiment_id: "synth-unit".to_string(),
        run_dir: "tmp".to_string(),
        config: OptimizationConfig {
            max_metric_calls: 30,
            max_iterations: Some(3),
            minibatch_size: 3,
            max_concurrency: 1,
            skip_perfect_score: false,
            per_example_timeout_secs: None,
            ..OptimizationConfig::default()
        },
    };
    let mut store = MemoryStore::default();
    let driver = Driver {
        project: &synthetic_project,
        propose: &concise_proposer,
        merge: &no_merge,
        cancelled: false,
    };
    let state = drive(
        &driver,
        &mut store,
        run,
        seed,
        build_train_examples(),
        build_val_examples(),
    )
    .unwrap();

    assert!(state.accepted_proposals >= 1,
        "expected at least 1 accepted proposal, got {}", state.accepted_proposals);
    let best = best(&state);
    assert!(mean_score(best) > 0.5,
        "best mean score should be > 0.5, got {}", mean_score(best));
}

#[test]
fn cancelled_runs_fail() {
    let mut store = MemoryStore::default();
    let driver = Driver {
        project: &score_project,
        propose: &better_proposer,
        merge: &no_merge,
        cancelled: true,
    };
    let failed = drive(
        &driver,
        &mut store,
        mock_run(mock_config()),
        seed_candidate(),
        trainset(),
        vec![],
    );
    assert_eq!(failed.unwrap_err(), HarnessOptError::Cancelled);
    assert_eq!(store.candidates.len(), 1);
}

#[test]
fn exhausted_budgets_end_the_run() {
    let mut store = MemoryStore::default();
    let driver = Driver {
        project: &score_project,
        propose: &better_proposer,
        merge: &no_merge,
        cancelled: false,
    };
    let state = drive(
        &driver,
        &mut store,
        mock_run(OptimizationConfig {
            max_metric_calls: 1,
            max_iterations: None,
            ..mock_config()
        }),
        seed_candidate(),
        trainset(),
        vec![],
    )
    .unwrap();
    assert_eq!(state.metric_calls_used, 1);
    assert!(store.proposals.is_empty());
}

#[test]
fn proposals_out_of_scope_fail_the_run() {
    let mut store = MemoryStore::default();
    let other = |request: StrategyRequest| propose_text("other", "x", request);
    let driver = Driver {
        project: &score_project,
        propose: &other,
        merge: &no_merge,
        cancelled: false,
    };
    let failed = drive(
        &driver,
        &mut store,
        mock_run(mock_config()),
        seed_candidate(),
        trainset(),
        vec![],
    );
    assert_eq!(
        failed.unwrap_err().message(),
        "invalid proposal: proposal patched unselected component `other`"
    );
}

fn merge_with(text: &'static str) -> impl Fn(&[CandidateEvaluation]) -> Option<MergePlan> {
    move |states: &[CandidateEvaluation]| {
        let mut merged = seed_candidate();
        merged.id = "merged".to_string();
        lash_harness_opt::apply_patch(
            &mut merged,
            &ComponentPatch::ReplaceValue {
                component_id: "instruction".to_string(),
                value: ComponentValue::Text {
                    text: text.to_string(),
                },
            },
        )
        .unwrap();
        Some(MergePlan {
            left: states[0].candidate.clone(),
            right: states[0].candidate.clone(),
            merged,
        })
    }
}

fn merging(text: &'static str) -> MemoryStore {
    let mut store = MemoryStore::default();
    let merge = merge_with(text);
    let none = |_: StrategyRequest| Vec::new();
    let driver = Driver {
        project: &score_project,
        propose: &none,
        merge: &merge,
        cancelled: false,
    };
    drive(
        &driver,
        &mut store,
        mock_run(OptimizationConfig {
            use_merge: true,
            max_merge_invocations: 1,
            max_iterations: Some(3),
            ..mock_config()
        }),
        seed_candidate(),
        trainset(),
        vec![],
    )
    .unwrap();
    store
}

#[test]
fn merges_are_accepted_when_no_worse() {
    let store = merging("do better");
    let reasons: Vec<&str> = store.proposals.iter().map(|p| p.reason.as_str()).collect();
    assert_eq!(
        reasons,
        [
            "merge_subsample_tied_or_improved",
            "skipped_perfect_minibatch",
            "skipped_perfect_minibatch"
        ]
    );
    assert_eq!(store.proposals[0].candidate_id.as_deref(), Some("merged"));
    assert_eq!(store.proposals[0].parent_ids, ["seed", "seed"]);
    assert_eq!(store.proposals[0].selected_components, ["instruction"]);
    assert_eq!(store.candidates[1].source_strategy, "merge");
    assert_eq!(store.candidates[1].generation, 1);
    assert_eq!(store.announced, 1);
}

#[test]
fn merges_are_rejected_when_worse() {
    let mut store = MemoryStore::default();
    let worse = |candidate: &Candidate, _: &HarnessExample| {
        if candidate.id == "merged" {
            0.0
        } else {
            0.5
        }
    };
    let merge = merge_with("other");
    let none = |_: StrategyRequest| Vec::new();
    let driver = Driver {
        project: &worse,
        propose: &none,
        merge: &merge,
        cancelled: false,
    };
    drive(
        &driver,
        &mut store,
        mock_run(OptimizationConfig {
            use_merge: true,
            max_merge_invocations: 5,
            ..mock_config()
        }),
        seed_candidate(),
        trainset(),
        vec![],
    )
    .unwrap();
    assert_eq!(store.proposals.len(), 1);
    assert_eq!(store.proposals[0].reason, "merge_subsample_worse");
    assert_eq!(store.announced, 0);
    assert_eq!(store.candidates.len(), 1);
}

#[test]
fn requests_show_the_selected_component_and_the_batch() {
    let seed = seed_candidate().with_component(MutableComponent {
        id: "zeta".to_string(),
        description: None,
        value: ComponentValue::Json { value: Json::Null },
        constraints: ComponentConstraints::default(),
    });
    let mut store = MemoryStore::default();
    let seen = std::cell::RefCell::new(Vec::new());
    let watching = |request: StrategyRequest| {
        seen.borrow_mut().push(request);
        Vec::new()
    };
    let driver = Driver {
        project: &score_project,
        propose: &watching,
        merge: &no_merge,
        cancelled: false,
    };
    drive(
        &driver,
        &mut store,
        mock_run(mock_config()),
        seed,
        vec![example("a", Split::Train), example("b", Split::Train)],
        vec![example("v", Split::Val)],
    )
    .unwrap();
    let requests = seen.borrow();
    assert_eq!(requests.len(), 1);
    assert_eq!(
        requests[0].evidence.parent.mutable_components.keys(),
        ["instruction"]
    );
    assert_eq!(requests[0].artifact_dir, "tmp/proposals/0");
    assert_eq!(requests[0].evidence.evaluated_examples.len(), 1);
    assert_eq!(requests[0].evidence.evaluated_examples[0].example.id, "b");
    assert_eq!(requests[0].evidence.frontier.len(), 1);
}

#[test]
fn resumed_stores_need_the_same_settings() {
    let mut store = MemoryStore::default();
    let driver = Driver {
        project: &score_project,
        propose: &worse_proposer,
        merge: &no_merge,
        cancelled: false,
    };
    let mut go = |config: OptimizationConfig| {
        drive(
            &driver,
            &mut store,
            mock_run(config),
            seed_candidate(),
            trainset(),
            vec![],
        )
    };
    let first = go(mock_config()).unwrap();
    let again = go(mock_config()).unwrap();
    assert_eq!(again.metric_calls_used, first.metric_calls_used);
    assert_eq!(again.rejected_proposals, 2);
    assert!(matches!(
        go(OptimizationConfig {
            minibatch_size: 2,
            ..mock_config()
        }),
        Err(HarnessOptError::Store(_))
    ));
}

#[test]
fn unexpected_events_fail_the_run() {
    let (state, action) =
        HarnessOptimization::start(mock_run(mock_config()), seed_candidate(), trainset(), vec![]);
    assert_eq!(action, OptimizerAction::CreateRunDir("tmp".to_string()));
    let (state, action) = state.step(OptimizerEvent::Cancelled(false));
    assert_eq!(
        action,
        OptimizerAction::Fail(HarnessOptError::Store("unexpected event".to_string()))
    );
    let (_, action) = state.step(OptimizerEvent::Completed);
    assert!(matches!(action, OptimizerAction::Fail(_)));
}

#[test]
fn runs_without_candidates_fail() {
    let (state, _) =
        HarnessOptimization::start(mock_run(mock_config()), seed_candidate(), trainset(), vec![]);
    let (state, _) = state.step(OptimizerEvent::Completed);
    let (state, _) = state.step(OptimizerEvent::Completed);
    let (state, _) = state.step(OptimizerEvent::Run(None));
    let record = CandidateRecord {
        candidate: seed_candidate(),
        fingerprint: String::new(),
        parent_ids: vec![],
        generation: 0,
        source_strategy: "seed".to_string(),
        component_cursor: 0,
        discovery_budget: 8,
    };
    let (state, _) = state.step(OptimizerEvent::Candidates(vec![record.clone()]));
    let (state, _) = state.step(OptimizerEvent::Candidates(vec![record]));
    let (state, _) = state.step(OptimizerEvent::Cancelled(false));
    let (state, action) = state.step(OptimizerEvent::Stats(StoreStats::default()));
    assert_eq!(action, OptimizerAction::TakeSurvey);
    let (_, action) = state.clone().step(OptimizerEvent::Surveyed(Survey {
        evaluated: vec![],
        best: None,
        frontier: vec![],
    }));
    assert_eq!(
        action,
        OptimizerAction::Fail(HarnessOptError::Store(
            "optimizer has no candidates".to_string()
        ))
    );
    let mut store = MemoryStore::default();
    let evaluation = evaluate_cached(&mut store, &seed_candidate(), &trainset(), &score_project);
    let (state, action) = state.step(OptimizerEvent::Surveyed(Survey {
        evaluated: vec![evaluation],
        best: Some(0),
        frontier: vec![],
    }));
    assert_eq!(action, OptimizerAction::LoadCandidates);
    let (_, action) = state.step(OptimizerEvent::Candidates(vec![]));
    assert_eq!(
        action,
        OptimizerAction::Fail(HarnessOptError::Store(
            "missing selected parent record".to_string()
        ))
    );
}
