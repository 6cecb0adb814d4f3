use std::hash::{Hash, Hasher};

use lash_harness_opt::engine::{
    apply_proposal_with_suffix, example_run_record, next_component_cursor, next_generation,
    select_components, select_parent,
};
use lash_harness_opt::model::PromptContribution;
use lash_harness_opt::{
    apply_patch, apply_proposal, candidate_fingerprint, complementary_pair, evaluation_cache_key,
    merge_candidates, select_batch, select_pareto_parent, validate_component_value, validate_patch_scope, Candidate, CandidateEvaluation,
    CandidateProposal, CandidateRecord, CandidateSelection, ComponentConstraints, ComponentPatch,
    ComponentSelection, ComponentValue, EvaluationResult, ExampleRun, HarnessExample,
    HarnessOptError, HarnessOptimizer, Json, MutableComponent, OptimizationConfig,
    ProjectHarnessRunner, RunArtifacts, Score, Split, StringMap,
};

fn example(id: &str, split: Split) -> HarnessExample {
    HarnessExample {
        id: id.to_string(),
        split,
        input: Json::object(vec![("question".to_string(), Json::text(id))]),
        expected: None,
        metadata: StringMap::new(),
    }
}

fn seed_candidate() -> Candidate {
    Candidate {
        id: "seed".to_string(),
        parent_id: None,
        mutable_components: StringMap::new(),
        immutable_context: StringMap::new(),
        metadata: StringMap::new(),
    }
    .with_component(MutableComponent {
        id: "instruction".to_string(),
        description: Some("instruction".to_string()),
        value: ComponentValue::Text {
            text: "do ok".to_string(),
        },
        constraints: ComponentConstraints {
            max_chars: Some(32),
            ..Default::default()
        },
    })
}

fn replace(id: &str, text: &str) -> ComponentPatch {
    ComponentPatch::ReplaceValue {
        component_id: id.to_string(),
        value: ComponentValue::Text {
            text: text.to_string(),
        },
    }
}

fn text_at(candidate: &Candidate, id: &str) -> String {
    match &candidate.component(id).unwrap().value {
        ComponentValue::Text { text } => text.clone(),
        _ => panic!("no text"),
    }
}

#[test]
fn component_patch_validation_rejects_invalid_mutation() {
    let mut candidate = seed_candidate();
    let err = apply_patch(
        &mut candidate,
        &ComponentPatch::ReplaceValue {
            component_id: "instruction".to_string(),
            value: ComponentValue::Text {
                text: "this text is far too long for the configured limit".to_string(),
            },
        },
    )
    .unwrap_err();

    assert!(matches!(err, HarnessOptError::ConstraintViolation { .. }));
}

#[test]
fn candidate_lineage_sets_parent_id() {
    let proposal = CandidateProposal {
        parent_candidate_id: "seed".to_string(),
        patches: vec![ComponentPatch::ReplaceValue {
            component_id: "instruction".to_string(),
            value: ComponentValue::Text {
                text: "do better".to_string(),
            },
        }],
        rationale: None,
        metadata: StringMap::new(),
    };

    let candidate = apply_proposal(&seed_candidate(), 2, &proposal).unwrap();

    assert_eq!(candidate.parent_id.as_deref(), Some("seed"));
    assert!(candidate.id.starts_with("seed-g2-"));
}

#[test]
fn train_val_split_batches_only_given_examples() {
    let train = vec![example("a", Split::Train), example("b", Split::Train)];
    let val = [example("c", Split::Val)];

    let batch = select_batch(&train, 8, 0);

    assert_eq!(batch.len(), 2);
    assert!(batch.iter().all(|example| example.split == Split::Train));
    assert_eq!(val[0].split, Split::Val);
}

#[test]
fn evaluation_cache_key_includes_split() {
    let candidate = seed_candidate();
    let train = example("x", Split::Train);
    let val = example("x", Split::Val);

    assert_ne!(
        evaluation_cache_key(&candidate, &train),
        evaluation_cache_key(&candidate, &val)
    );
}

#[test]
fn candidate_fingerprint_excludes_lineage_and_metadata() {
    let mut left = seed_candidate();
    let mut right = left.clone();
    right.id = "other".to_string();
    right.parent_id = Some("parent".to_string());
    right
        .metadata
        .insert("note".to_string(), Json::text("ignored"));

    assert_eq!(
        candidate_fingerprint(&left).unwrap(),
        candidate_fingerprint(&right).unwrap()
    );

    apply_patch(
        &mut left,
        &ComponentPatch::ReplaceValue {
            component_id: "instruction".to_string(),
            value: ComponentValue::Text {
                text: "do better".to_string(),
            },
        },
    )
    .unwrap();

    assert_ne!(
        candidate_fingerprint(&left).unwrap(),
        candidate_fingerprint(&right).unwrap()
    );
}

#[test]
fn proposal_patch_scope_rejects_unselected_component() {
    let proposal = CandidateProposal {
        parent_candidate_id: "seed".to_string(),
        patches: vec![ComponentPatch::ReplaceValue {
            component_id: "instruction".to_string(),
            value: ComponentValue::Text {
                text: "do better".to_string(),
            },
        }],
        rationale: None,
        metadata: StringMap::new(),
    };

    assert!(matches!(
        validate_patch_scope(&proposal, &["other".to_string()]),
        Err(HarnessOptError::InvalidProposal(_))
    ));
    assert!(validate_patch_scope(&proposal, &["instruction".to_string()]).is_ok());
}

#[test]
fn fingerprint_hashes_document_as_std_does() {
    let candidate = seed_candidate();
    let document = concat_document();
    let mut hasher = std::collections::hash_map::DefaultHasher::new();
    document.into_bytes().hash(&mut hasher);
    let fingerprint = format!("{:016x}", hasher.finish());
    assert_eq!(candidate_fingerprint(&candidate).unwrap(), fingerprint);

    let mut key = std::collections::hash_map::DefaultHasher::new();
    fingerprint.hash(&mut key);
    "x".to_string().hash(&mut key);
    Split::Test.hash(&mut key);
    assert_eq!(
        evaluation_cache_key(&candidate, &example("x", Split::Test)),
        format!("{:016x}", key.finish())
    );
}

fn concat_document() -> String {
    "{\"mutable_components\":{\"instruction\":{\"id\":\"instruction\",\
     \"description\":\"instruction\",\"value\":{\"kind\":\"text\",\"text\":\"do ok\"},\
     \"constraints\":{\"max_chars\":32}}},\"immutable_context\":{}}"
        .to_string()
}

#[test]
fn patches_change_only_the_named_value() {
    let before = seed_candidate().with_component(MutableComponent {
        id: "other".to_string(),
        description: None,
        value: ComponentValue::Json { value: Json::Null },
        constraints: ComponentConstraints::default(),
    });
    let mut after = before.clone();
    apply_patch(&mut after, &replace("instruction", "do better")).unwrap();
    assert_eq!(text_at(&after, "instruction"), "do better");
    assert_eq!(
        after.component("instruction").unwrap().constraints,
        before.component("instruction").unwrap().constraints
    );
    assert_eq!(
        after.component("other").unwrap(),
        before.component("other").unwrap()
    );
    assert_eq!(after.id, before.id);

    let refused = apply_patch(&mut after, &replace("missing", "x")).unwrap_err();
    assert_eq!(
        refused.message(),
        "unknown mutable component `missing`"
    );
    assert_eq!(text_at(&after, "instruction"), "do better");
}

#[test]
fn constraints_are_checked_in_order() {
    let constraints = ComponentConstraints {
        max_chars: Some(5),
        preserve_terms: vec!["a".to_string(), "b".to_string()],
        forbidden_terms: vec!["x".to_string()],
        format_hint: None,
    };
    let text = |t: &str| ComponentValue::Text {
        text: t.to_string(),
    };
    let reason = |t: &str| match validate_component_value("c", &constraints, &text(t)) {
        Ok(()) => String::new(),
        Err(error) => error.message(),
    };
    assert_eq!(reason("abc"), "");
    assert_eq!(reason("aäöüb"), "");
    assert_eq!(
        reason("abcdef"),
        "component `c` violates constraint: text exceeds 5 characters"
    );
    assert_eq!(
        reason("a"),
        "component `c` violates constraint: missing preserved term `b`"
    );
    assert_eq!(
        reason("xab"),
        "component `c` violates constraint: contains forbidden term `x`"
    );
    assert!(validate_component_value(
        "c",
        &constraints,
        &ComponentValue::Json { value: Json::Null }
    )
    .is_ok());
}

#[test]
fn proposals_need_the_right_parent() {
    let proposal = CandidateProposal {
        parent_candidate_id: "someone".to_string(),
        patches: vec![],
        rationale: None,
        metadata: StringMap::new(),
    };
    let error = apply_proposal(&seed_candidate(), 0, &proposal).unwrap_err();
    assert_eq!(
        error.message(),
        "invalid proposal: proposal parent `someone` does not match selected parent `seed`"
    );
}

#[test]
fn proposals_pass_on_metadata_and_context() {
    let mut parent = seed_candidate();
    parent.metadata.insert("a".to_string(), Json::unsigned(1));
    parent.metadata.insert("b".to_string(), Json::unsigned(2));
    parent
        .immutable_context
        .insert("c".to_string(), Json::text("kept"));
    let mut metadata = StringMap::new();
    metadata.insert("b".to_string(), Json::unsigned(3));
    let proposal = CandidateProposal {
        parent_candidate_id: "seed".to_string(),
        patches: vec![replace("instruction", "one"), replace("instruction", "two")],
        rationale: None,
        metadata,
    };
    let candidate = apply_proposal_with_suffix(&parent, 7, &proposal, "end").unwrap();
    assert_eq!(candidate.id, "seed-g7-end");
    assert_eq!(text_at(&candidate, "instruction"), "two");
    assert_eq!(candidate.metadata.get("a").unwrap().as_u64(), Some(1));
    assert_eq!(candidate.metadata.get("b").unwrap().as_u64(), Some(3));
    assert_eq!(candidate.immutable_context, parent.immutable_context);
}

#[test]
fn fresh_ids_are_random_uuids() {
    let proposal = CandidateProposal {
        parent_candidate_id: "seed".to_string(),
        patches: vec![],
        rationale: None,
        metadata: StringMap::new(),
    };
    let first = apply_proposal(&seed_candidate(), 1, &proposal).unwrap().id;
    let second = apply_proposal(&seed_candidate(), 1, &proposal).unwrap().id;
    assert_ne!(first, second);
    let suffix = first.strip_prefix("seed-g1-").unwrap();
    assert_eq!(suffix.len(), 36);
    for (i, c) in suffix.chars().enumerate() {
        if i == 8 || i == 13 || i == 18 || i == 23 {
            assert_eq!(c, '-');
        } else {
            assert!(c.is_ascii_digit() || ('a'..='f').contains(&c));
        }
    }
    assert_eq!(suffix.chars().nth(14), Some('4'));
    assert!("89ab".contains(suffix.chars().nth(19).unwrap()));
}

#[test]
fn batches_go_around_the_examples() {
    let examples = vec![
        example("a", Split::Train),
        example("b", Split::Train),
        example("c", Split::Train),
    ];
    let ids = |size: usize, generation: usize| {
        select_batch(&examples, size, generation)
            .iter()
            .map(|e| e.id.clone())
            .collect::<Vec<_>>()
    };
    assert_eq!(ids(2, 2), ["c", "a"]);
    assert_eq!(ids(0, 4), ["b"]);
    assert_eq!(ids(9, 1), ["b", "c", "a"]);
    assert!(select_batch(&[], 3, 5).is_empty());
}

fn record(cursor: usize, generation: usize) -> CandidateRecord {
    CandidateRecord {
        candidate: seed_candidate().with_component(MutableComponent {
            id: "alpha".to_string(),
            description: None,
            value: ComponentValue::Json { value: Json::Null },
            constraints: ComponentConstraints::default(),
        }),
        fingerprint: String::new(),
        parent_ids: vec![],
        generation,
        source_strategy: "seed".to_string(),
        component_cursor: cursor,
        discovery_budget: 0,
    }
}

#[test]
fn components_are_selected_in_turn() {
    let mut config = OptimizationConfig::default();
    assert_eq!(select_components(&record(0, 0), &config), ["alpha"]);
    assert_eq!(select_components(&record(1, 0), &config), ["instruction"]);
    assert_eq!(select_components(&record(2, 0), &config), ["alpha"]);
    assert_eq!(select_components(&record(7, 0), &config), ["instruction"]);
    assert_eq!(select_components(&record(8, 0), &config), ["alpha"]);
    assert_eq!(select_components(&record(usize::MAX, 0), &config), ["instruction"]);
    assert_eq!(next_component_cursor(&record(2, 0), &config, 1), 3);
    assert_eq!(next_component_cursor(&record(2, 0), &config, 0), 3);
    config.component_selection = ComponentSelection::All;
    assert_eq!(
        select_components(&record(1, 0), &config),
        ["alpha", "instruction"]
    );
    assert_eq!(next_component_cursor(&record(2, 0), &config, 2), 2);
    let mut bare = record(0, 0);
    bare.candidate.mutable_components = StringMap::new();
    config.component_selection = ComponentSelection::RoundRobin;
    assert!(select_components(&bare, &config).is_empty());
}

fn scored(id: &str, scores: &[(&str, f64)]) -> CandidateEvaluation {
    let mut state = CandidateEvaluation::new(seed_candidate());
    state.candidate.id = id.to_string();
    for (example_id, x) in scores {
        state.evaluations.insert(
            example_id.to_string(),
            EvaluationResult {
                example_id: example_id.to_string(),
                split: Split::Val,
                score: Score { bits: x.to_bits() },
                passed: None,
                feedback: None,
                metrics: StringMap::new(),
                diagnostics: StringMap::new(),
            },
        );
    }
    state
}

#[test]
fn pareto_parent_selection_cycles_through_covered_examples() {
    let left = scored("left", &[("ex1", 1.0), ("ex2", 0.0)]);
    let right = scored("right", &[("ex1", 0.0), ("ex2", 1.0)]);
    let states = [left, right];

    assert_eq!(
        states[select_pareto_parent(&states, 0).unwrap()].candidate.id,
        "left"
    );
    assert_eq!(
        states[select_pareto_parent(&states, 1).unwrap()].candidate.id,
        "right"
    );
    assert_eq!(select_pareto_parent(&states, 2), Some(0));
}

#[test]
fn candidates_that_complement_each_other_are_found() {
    let states = [
        scored("a", &[("x", 0.5), ("y", 0.5)]),
        scored("b", &[("x", 0.75), ("y", 0.5)]),
        scored("c", &[("x", 0.25), ("y", 1.0), ("z", 1.0)]),
        scored("d", &[("z", 2.0)]),
    ];
    assert_eq!(complementary_pair(&states), Some((0, 2)));
    assert_eq!(complementary_pair(&states[1..]), Some((0, 1)));
    assert_eq!(complementary_pair(&states[..2]), None);
    assert_eq!(complementary_pair(&states[2..]), None);
}

#[test]
fn merged_candidates_take_components_in_turn() {
    let part = |id: &str, text: &str| MutableComponent {
        id: id.to_string(),
        description: None,
        value: ComponentValue::Text {
            text: text.to_string(),
        },
        constraints: ComponentConstraints::default(),
    };
    let mut left = seed_candidate();
    let mut right = seed_candidate();
    right.id = "other".to_string();
    for id in ["a", "b", "c"] {
        left = left.with_component(part(id, "left"));
    }
    for id in ["a", "b", "z"] {
        right = right.with_component(part(id, "right"));
    }
    right = right.with_component(part("instruction", "right"));
    let merged = merge_candidates(&left, &right, 4);
    assert_eq!(merged.id, "seed-other-m4");
    assert_eq!(merged.parent_id.as_deref(), Some("seed"));
    assert_eq!(
        merged.mutable_components.keys(),
        ["a", "b", "c", "instruction"]
    );
    let texts: Vec<String> = ["a", "b", "c", "instruction"]
        .iter()
        .map(|id| text_at(&merged, id))
        .collect();
    assert_eq!(texts, ["left", "right", "left", "right"]);
}

#[test]
fn the_first_of_equal_parents_is_selected() {
    let states = [
        scored("a", &[]),
        scored("b", &[("z", 0.5)]),
        scored("c", &[("z", 0.75), ("k", -1.0)]),
        scored("d", &[("z", 0.75)]),
    ];
    assert_eq!(select_pareto_parent(&states, 0), Some(2));
    assert_eq!(select_pareto_parent(&states, 1), Some(2));
    assert_eq!(select_pareto_parent(&states[..2], 7), Some(1));
    assert_eq!(select_pareto_parent(&states[..1], 0), None);
    assert_eq!(select_pareto_parent(&[], 3), None);
}

#[test]
fn fingerprints_tell_the_content_of_contributions() {
    let with_content = |content: &str, document: Json| {
        seed_candidate().with_component(MutableComponent {
            id: "c".to_string(),
            description: None,
            value: ComponentValue::PromptContribution {
                contribution: PromptContribution {
                    content: content.to_string(),
                    document,
                },
            },
            constraints: ComponentConstraints::default(),
        })
    };
    let document = |content: &str| {
        Json::object(vec![
            ("content".to_string(), Json::text(content)),
            ("slot".to_string(), Json::text("guidance")),
        ])
    };
    let one = candidate_fingerprint(&with_content("one", document("one"))).unwrap();
    let stale = candidate_fingerprint(&with_content("one", document("two"))).unwrap();
    let two = candidate_fingerprint(&with_content("two", document("one"))).unwrap();
    assert_eq!(one, stale);
    assert_ne!(one, two);
}

#[test]
fn parents_are_selected_as_configured() {
    let states = vec![
        CandidateEvaluation::new(seed_candidate()),
        scored("b", &[("ex", 0.5)]),
        scored("c", &[("ex", 0.75)]),
    ];
    let mut config = OptimizationConfig::default();
    assert_eq!(select_parent(&states, &config, 4, Some(0)), Some(2));
    assert_eq!(select_parent(&states[..1], &config, 4, Some(0)), None);
    config.candidate_selection = CandidateSelection::CurrentBest;
    assert_eq!(select_parent(&states, &config, 4, Some(0)), Some(0));
    assert_eq!(select_parent(&states, &config, 4, Some(3)), None);
    config.candidate_selection = CandidateSelection::EpsilonGreedy;
    assert_eq!(select_parent(&states, &config, 10, Some(0)), Some(1));
    assert_eq!(select_parent(&states, &config, 11, Some(0)), Some(2));
    assert_eq!(select_parent(&[], &config, 20, None), None);
}

#[test]
fn runs_go_on_from_the_greatest_generation() {
    assert_eq!(next_generation(&[]), 0);
    assert_eq!(
        next_generation(&[record(0, 1), record(0, 4), record(0, 2)]),
        4
    );
}

#[test]
fn records_of_runs_count_calls() {
    let run = |metric_calls: u64| ExampleRun {
        example: example("e", Split::Val),
        result: EvaluationResult {
            example_id: "e".to_string(),
            split: Split::Val,
            score: Score { bits: 0.5f64.to_bits() },
            passed: None,
            feedback: Some("f".to_string()),
            metrics: StringMap::new(),
            diagnostics: StringMap::new(),
        },
        trace: None,
        artifacts: RunArtifacts::default(),
        metric_calls,
    };
    let candidate = seed_candidate();
    let hit = example_run_record(&candidate, "fp", &run(5), true);
    assert_eq!(hit.metric_calls, 0);
    assert!(hit.cache_hit);
    assert_eq!(hit.candidate_fingerprint, "fp");
    assert_eq!(hit.score.bits, 0.5f64.to_bits());
    assert_eq!(
        example_run_record(&candidate, "fp", &run(0), false).metric_calls,
        1
    );
    assert_eq!(
        example_run_record(&candidate, "fp", &run(5), false).metric_calls,
        5
    );
}

#[test]
fn optimizers_hold_their_parts() {
    let runner = ProjectHarnessRunner::new(std::sync::Arc::new(3u8));
    assert_eq!(*runner.project, 3);
    let optimizer = HarnessOptimizer::new(runner, "strategy");
    assert_eq!(optimizer.strategy, "strategy");
    assert_eq!(*optimizer.runner.project, 3);
}

#[test]
fn messages_name_their_kind() {
    assert_eq!(HarnessOptError::Cancelled.message(), "optimizer cancelled");
    let text = || "t".to_string();
    assert_eq!(HarnessOptError::Harness(text()).message(), "harness error: t");
    assert_eq!(HarnessOptError::Strategy(text()).message(), "strategy error: t");
    assert_eq!(HarnessOptError::Io(text()).message(), "io error: t");
    assert_eq!(HarnessOptError::Json(text()).message(), "json error: t");
    assert_eq!(HarnessOptError::Sqlite(text()).message(), "sqlite error: t");
    assert_eq!(HarnessOptError::Store(text()).message(), "store error: t");
    assert_eq!(
        HarnessOptError::InvalidProposal(text()).message(),
        "invalid proposal: t"
    );
}
