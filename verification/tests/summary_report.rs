use lash_harness_opt::gepa_summary::{
    apply_patches_to_candidate, build_gepa_summary, compute_pareto_front_idxs,
    extract_text_value, val_subscores, CandidateSummaryEntry, SummarySources,
};
use lash_harness_opt::engine::example_run_record;
use lash_harness_opt::{
    candidate_fingerprint, Candidate, CandidateRecord, ComponentConstraints, ComponentPatch,
    ComponentValue, EvaluationRecord, EvaluationResult, ExampleRun, HarnessExample, Json,
    MutableComponent, OptimizationConfig, OptimizationRun, ProposalRecord, RunArtifacts, Score,
    Split, StoreStats, StringMap,
};
use lash_harness_opt::model::{PromptContribution, PromptTemplate};

fn score(x: f64) -> Score {
    Score { bits: x.to_bits() }
}

fn number(x: &Score) -> f64 {
    f64::from_bits(x.bits)
}

fn make_example(id: &str, split: Split) -> HarnessExample {
    HarnessExample {
        id: id.to_string(),
        split,
        input: Json::object(vec![("question".to_string(), Json::text("test?"))]),
        expected: Some(Json::object(vec![("answer".to_string(), Json::text("yes"))])),
        metadata: StringMap::new(),
    }
}

fn make_seed_candidate() -> Candidate {
    Candidate {
        id: "seed".to_string(),
        parent_id: None,
        mutable_components: StringMap::new(),
        immutable_context: StringMap::new(),
        metadata: StringMap::new(),
    }
    .with_component(MutableComponent {
        id: "instr".to_string(),
        description: None,
        value: ComponentValue::Text { text: "Answer the question.".to_string() },
        constraints: ComponentConstraints {
            max_chars: None,
            preserve_terms: vec![],
            forbidden_terms: vec![],
            format_hint: None,
        },
    })
}

fn mean(scores: &StringMap<Score>) -> Score {
    let n = scores.len();
    if n == 0 {
        return score(0.0);
    }
    let mut sum = 0.0;
    for key in scores.keys() {
        sum += number(scores.get(&key).unwrap());
    }
    score(sum / n as f64)
}

fn val_evaluation(candidate: &Candidate, id: &str, x: f64) -> EvaluationRecord {
    let ex = make_example(id, Split::Val);
    let run_result = ExampleRun {
        example: ex.clone(),
        result: EvaluationResult {
            example_id: ex.id.clone(),
            split: Split::Val,
            score: score(x),
            passed: Some(x >= 1.0),
            feedback: None,
            metrics: StringMap::new(),
            diagnostics: StringMap::new(),
        },
        trace: None,
        artifacts: RunArtifacts::default(),
        metric_calls: 1,
    };
    example_run_record(
        candidate,
        &candidate_fingerprint(candidate).unwrap(),
        &run_result,
        false,
    )
}

fn make_run() -> OptimizationRun {
    OptimizationRun {
        run_id: "test-run".to_string(),
        experiment_id: "test-exp".to_string(),
        run_dir: "dir".to_string(),
        config: OptimizationConfig {
            max_metric_calls: 20,
            task_lm: "test-lm".to_string(),
            reflection_lm: "test-reflect-lm".to_string(),
            ..OptimizationConfig::default()
        },
    }
}

fn make_record(candidate: Candidate, parents: &[&str], generation: usize, budget: u64) -> CandidateRecord {
    let fp = candidate_fingerprint(&candidate).unwrap();
    CandidateRecord {
        candidate,
        fingerprint: fp,
        parent_ids: parents.iter().map(|p| p.to_string()).collect(),
        generation,
        source_strategy: "seed".to_string(),
        component_cursor: 0,
        discovery_budget: budget,
    }
}

#[test]
fn write_gepa_summary_produces_valid_json_with_seed_and_val_scores() {
    let run = make_run();
    let seed = make_seed_candidate();
    let records = [make_record(seed.clone(), &[], 0, 20)];
    let evaluations = [
        val_evaluation(&seed, "V01", 0.8),
        val_evaluation(&seed, "V02", 0.6),
    ];
    let val_ids = ["V01".to_string(), "V02".to_string()];
    let aggregate = mean(&val_subscores(&evaluations, &seed.id, &val_ids));
    let summary = build_gepa_summary(
        &SummarySources {
            run: &run,
            val_ids: &val_ids,
            candidates: &records,
            evaluations: &evaluations,
            proposals: &[],
            aggregates: &[aggregate],
        },
        &StoreStats { metric_calls_used: 2, ..StoreStats::default() },
        0,
    );

    assert_eq!(summary.schema_version, "1");
    assert_eq!(summary.run_id, "test-run");
    assert_eq!(summary.experiment_id, "test-exp");
    assert_eq!(summary.task_lm, "test-lm");
    assert_eq!(summary.reflection_lm, "test-reflect-lm");
    assert_eq!(summary.num_val_examples, 2);
    assert_eq!(summary.val_example_ids, ["V01", "V02"]);
    assert_eq!(summary.max_metric_calls, 20);
    assert_eq!(summary.total_metric_calls, 2);
    assert_eq!(summary.completed_at, "1970-01-01T00:00:00Z");

    // Seed entry is present and marked is_seed = true
    assert_eq!(summary.candidates.len(), 1);
    let seed_entry = &summary.candidates[0];
    assert!(seed_entry.is_seed);
    assert!(seed_entry.is_accepted);

    // Val subscores match what we wrote
    let subscores = seed_entry.val_subscores.as_ref().unwrap();
    assert!((number(subscores.get("V01").unwrap()) - 0.8).abs() < 1e-9);
    assert!((number(subscores.get("V02").unwrap()) - 0.6).abs() < 1e-9);

    // Aggregate score
    let agg = number(&seed_entry.val_aggregate_score.unwrap());
    assert!((agg - 0.7).abs() < 1e-9, "aggregate should be (0.8+0.6)/2 = 0.7, got {agg}");

    // Seed is on the Pareto front (only candidate)
    assert!(seed_entry.is_on_pareto_front);

    // pareto_front_per_val_example should map each val ID to [0]
    assert_eq!(summary.pareto_front_per_val_example.get("V01").unwrap(), &vec![0]);
    assert_eq!(summary.pareto_front_per_val_example.get("V02").unwrap(), &vec![0]);
}

fn proposal(accepted: bool, candidate_id: Option<&str>, text: &str) -> ProposalRecord {
    ProposalRecord {
        run_id: "test-run".to_string(),
        generation: 0,
        parent_ids: vec!["seed".to_string(), "gone".to_string()],
        selected_components: vec!["instr".to_string(), "b".to_string()],
        minibatch_ids: vec![],
        patches: vec![
            ComponentPatch::ReplaceValue {
                component_id: "missing".to_string(),
                value: ComponentValue::Json { value: Json::Null },
            },
            ComponentPatch::ReplaceValue {
                component_id: "instr".to_string(),
                value: ComponentValue::Text { text: text.to_string() },
            },
        ],
        rlm_prompt_ref: None,
        rlm_output_ref: None,
        before_score: score(0.25),
        after_score: score(0.5),
        accepted,
        reason: String::new(),
        candidate_id: candidate_id.map(|id| id.to_string()),
    }
}

#[test]
fn summaries_list_candidates_and_rejected_proposals() {
    let run = make_run();
    let seed = make_seed_candidate();
    let mut child = make_seed_candidate();
    child.id = "child".to_string();
    let records = [
        make_record(seed.clone(), &[], 0, 20),
        make_record(child.clone(), &["seed", "gone"], 1, 12),
    ];
    let evaluations = [
        val_evaluation(&seed, "V01", 0.1),
        val_evaluation(&seed, "V01", 0.8),
        val_evaluation(&child, "V01", 0.8),
        val_evaluation(&child, "V02", 0.3),
    ];
    let proposals = [
        proposal(false, None, "rejected"),
        proposal(true, Some("child"), "accepted"),
    ];
    let val_ids = ["V01".to_string(), "V02".to_string()];
    let summary = build_gepa_summary(
        &SummarySources {
            run: &run,
            val_ids: &val_ids,
            candidates: &records,
            evaluations: &evaluations,
            proposals: &proposals,
            aggregates: &[score(0.4), score(0.55)],
        },
        &StoreStats::default(),
        86_400,
    );
    assert_eq!(summary.candidates.len(), 3);
    let (first, second, third) = (
        &summary.candidates[0],
        &summary.candidates[1],
        &summary.candidates[2],
    );
    assert_eq!(first.minibatch_score_before, None);
    assert_eq!(first.component_mutated, None);
    assert_eq!(first.discovery_eval_count, Some(0));
    assert!(first.is_on_pareto_front);
    assert_eq!(second.parent_idxs, [0]);
    assert_eq!(second.discovery_eval_count, Some(8));
    assert_eq!(second.minibatch_score_before, Some(score(0.25)));
    assert_eq!(second.component_mutated.as_deref(), Some("instr"));
    assert!(second.is_on_pareto_front);
    assert!(!second.is_seed);
    assert_eq!(third.candidate_idx, 2);
    assert_eq!(third.candidate_id, None);
    assert!(!third.is_accepted);
    assert_eq!(third.parent_idxs, [0]);
    assert_eq!(third.component_texts.get("instr").unwrap(), "rejected");
    assert_eq!(third.val_subscores, None);
    assert_eq!(third.minibatch_score_after, Some(score(0.5)));
    assert_eq!(summary.pareto_front_per_val_example.get("V01").unwrap(), &vec![0, 1]);
    assert_eq!(summary.pareto_front_per_val_example.get("V02").unwrap(), &vec![1]);
    assert_eq!(summary.completed_at, "1970-01-02T00:00:00Z");
}

fn entry(idx: usize, accepted: bool, scores: &[(&str, f64)]) -> CandidateSummaryEntry {
    let mut subscores = StringMap::new();
    for (id, x) in scores {
        subscores.insert(id.to_string(), score(*x));
    }
    CandidateSummaryEntry {
        candidate_idx: idx,
        candidate_id: None,
        is_seed: false,
        is_accepted: accepted,
        parent_idxs: vec![],
        discovery_eval_count: None,
        component_texts: StringMap::new(),
        component_mutated: None,
        val_aggregate_score: None,
        val_subscores: Some(subscores),
        is_on_pareto_front: false,
        minibatch_score_before: None,
        minibatch_score_after: None,
    }
}

#[test]
fn front_leaves_out_candidates_beaten_everywhere() {
    let ids = ["a".to_string(), "b".to_string()];
    let entries = [
        entry(0, true, &[("a", 1.0), ("b", 0.0)]),
        entry(1, true, &[("a", 0.0), ("b", 1.0)]),
        entry(2, true, &[("a", 0.0), ("b", 0.5)]),
        entry(3, false, &[("a", 9.0), ("b", 9.0)]),
        entry(4, true, &[("a", 1.0)]),
        entry(5, true, &[("a", -1.0), ("b", -0.5)]),
    ];
    assert_eq!(compute_pareto_front_idxs(&entries, &ids), [0, 1, 2, 4]);
    assert_eq!(compute_pareto_front_idxs(&entries, &[]), [0, 1, 2, 4, 5]);
    let tied = [
        entry(0, true, &[("a", 1.0), ("b", 0.5)]),
        entry(1, true, &[("a", 1.0), ("b", 0.6)]),
    ];
    assert_eq!(compute_pareto_front_idxs(&tied, &ids), [0, 1]);
}

#[test]
fn values_have_texts() {
    assert_eq!(
        extract_text_value(&ComponentValue::Json {
            value: Json::array(vec![Json::unsigned(1), Json::text("x")])
        }),
        "[1,\"x\"]"
    );
    assert_eq!(
        extract_text_value(&ComponentValue::PromptTemplate {
            template: PromptTemplate { document: Json::Null }
        }),
        "<PromptTemplate>"
    );
    let contribution = ComponentValue::PromptContribution {
        contribution: PromptContribution {
            content: "content".to_string(),
            document: Json::Null,
        },
    };
    assert_eq!(extract_text_value(&contribution), "<PromptContribution>");
    assert_eq!(contribution.text_for_constraints(), Some("content"));
    let texts = apply_patches_to_candidate(
        &make_seed_candidate(),
        &proposal(false, None, "new").patches,
    );
    assert_eq!(texts.keys(), ["instr"]);
    assert_eq!(texts.get("instr").unwrap(), "new");
}
