use lash_harness_opt::synthetic_task::{
    answered_run, build_train_examples, build_val_examples, prepare_session,
    score_synthetic_example, session_model, SyntheticTask, SYNTH_QA_COMPONENT_ID,
    SYNTH_SEED_PROMPT,
};
use lash_harness_opt::{
    ComponentConstraints, ComponentValue, HarnessOptError, Json, MutableComponent, Score, Split,
    StringMap,
};

fn expected(answer: &str) -> Option<Json> {
    Some(Json::object(vec![(
        "answer".to_string(),
        Json::text(answer),
    )]))
}

fn number(score: Score) -> f64 {
    f64::from_bits(score.bits)
}

#[test]
fn score_passes_on_exact_trimmed_match() {
    let expected = expected("JP");
    // Bare value with trailing newline → should pass after trim
    let result = score_synthetic_example("JP\n", &expected, "T01", &Split::Train);
    assert_eq!(number(result.score), 1.0);
    assert_eq!(result.passed, Some(true));
}

#[test]
fn score_fails_when_response_is_verbose() {
    let expected = expected("JP");
    let result = score_synthetic_example("The country code is JP.", &expected, "T01", &Split::Train);
    assert_eq!(number(result.score), 0.0);
    assert_eq!(result.passed, Some(false));
}

#[test]
fn score_is_case_sensitive_exact_match() {
    let expected = expected("es");
    // "ES" ≠ "es" even when trimmed
    let result = score_synthetic_example("ES", &expected, "T06", &Split::Train);
    assert_eq!(number(result.score), 0.0);
    // exact "es" passes
    let result2 = score_synthetic_example("es", &expected, "T06", &Split::Train);
    assert_eq!(number(result2.score), 1.0);
}

#[test]
fn score_empty_answer_is_safe_fallback() {
    let result = score_synthetic_example("", &None, "X", &Split::Val);
    assert_eq!(number(result.score), 1.0, "empty response with empty answer should pass");
    let result2 = score_synthetic_example("something", &None, "X", &Split::Val);
    assert_eq!(number(result2.score), 0.0, "non-empty response should not equal empty answer");
}

#[test]
fn score_populates_diagnostics() {
    let expected = expected("Paris");
    let result = score_synthetic_example("Paris", &expected, "T10", &Split::Train);
    assert_eq!(result.diagnostics.get("answer_length"), Some(&Json::unsigned(5)));
    assert_eq!(result.diagnostics.get("tool_call_count"), Some(&Json::unsigned(0)));
}

#[test]
fn feedback_quotes_answer_and_response() {
    let result = score_synthetic_example(" ä ", &expected("ä"), "T", &Split::Test);
    assert_eq!(
        result.feedback.as_deref(),
        Some("Correct. Trimmed response exactly equals the expected answer 'ä'.")
    );
    assert_eq!(result.diagnostics.get("answer_length"), Some(&Json::unsigned(2)));
    assert_eq!(result.diagnostics.get("response_length"), Some(&Json::unsigned(4)));
    let long = "y".repeat(250);
    let result = score_synthetic_example(&long, &expected("x"), "T", &Split::Test);
    assert_eq!(
        result.feedback.unwrap(),
        format!(
            "Incorrect. Expected trimmed response to equal 'x' exactly (case-sensitive), \
             but got: '{}'",
            "y".repeat(200)
        )
    );
    assert_eq!(
        result.diagnostics.get("turn_outcome"),
        Some(&Json::text("incorrect"))
    );
}

#[test]
fn seed_candidate_has_correct_component_id_and_seed_text() {
    let train = build_train_examples();
    let val = build_val_examples();

    let constraints = ComponentConstraints {
        max_chars: Some(2000),
        preserve_terms: vec![],
        forbidden_terms: vec![],
        format_hint: Some("System instruction for question answering".to_string()),
    };
    let mut comps = StringMap::new();
    comps.insert(
        SYNTH_QA_COMPONENT_ID.to_string(),
        MutableComponent {
            id: SYNTH_QA_COMPONENT_ID.to_string(),
            description: None,
            value: ComponentValue::Text { text: SYNTH_SEED_PROMPT.to_string() },
            constraints: constraints.clone(),
        },
    );

    let text = match &comps.get(SYNTH_QA_COMPONENT_ID).unwrap().value {
        ComponentValue::Text { text } => text.as_str(),
        _ => panic!("wrong variant"),
    };
    assert_eq!(text, "Answer the question.");
    assert_eq!(train.len(), 15, "train set must have 15 examples");
    assert_eq!(val.len(), 5, "val set must have 5 examples");

    let task = SyntheticTask::new("provider");
    let seed = task.seed_candidate();
    let component = seed.component(SYNTH_QA_COMPONENT_ID).unwrap();
    assert_eq!(component.value, comps.get(SYNTH_QA_COMPONENT_ID).unwrap().value);
    assert_eq!(component.constraints, constraints);
    assert_eq!(seed.metadata.get("project"), Some(&Json::text("synth-qa")));
    assert_eq!(task.trainset(), train);
    assert_eq!(task.valset(), val);
}

#[test]
fn dataset_has_correct_ids_and_splits() {
    let train = build_train_examples();
    let val = build_val_examples();

    let train_ids: Vec<&str> = train.iter().map(|e| e.id.as_str()).collect();
    assert_eq!(
        train_ids,
        ["T01","T02","T03","T04","T05","T06","T07","T08","T09","T10","T11","T12","T13","T14","T15"]
    );
    let val_ids: Vec<&str> = val.iter().map(|e| e.id.as_str()).collect();
    assert_eq!(val_ids, ["V01","V02","V03","V04","V05"]);

    assert!(train.iter().all(|e| e.split == Split::Train));
    assert!(val.iter().all(|e| e.split == Split::Val));
}

#[test]
fn dataset_examples_have_question_and_answer_fields() {
    for ex in build_train_examples().iter().chain(build_val_examples().iter()) {
        assert!(ex.input.get("question").and_then(Json::as_str).is_some(),
            "example {} missing input['question']", ex.id);
        assert!(
            ex.expected.as_ref().and_then(|v| v.get("answer")).and_then(Json::as_str).is_some(),
            "example {} missing expected['answer']", ex.id
        );
    }
}

#[test]
fn sessions_need_instruction_and_question() {
    let mut seed = SyntheticTask::new(()).seed_candidate();
    let example = build_val_examples().remove(2);
    assert_eq!(
        prepare_session(&seed, &example).unwrap(),
        (
            "Answer the question.".to_string(),
            "How many players are on a standard association football team?".to_string()
        )
    );
    let mut wordless = example.clone();
    wordless.input = Json::Null;
    assert_eq!(
        prepare_session(&seed, &wordless).unwrap_err().message(),
        "harness error: example 'V03' is missing input['question']"
    );
    let mut component = seed.mutable_components.remove(SYNTH_QA_COMPONENT_ID).unwrap();
    assert_eq!(
        prepare_session(&seed, &example).unwrap_err(),
        HarnessOptError::Harness(
            "missing component 'synth_qa.system_instruction'".to_string()
        )
    );
    component.value = ComponentValue::Json { value: Json::Null };
    assert_eq!(
        prepare_session(&seed.with_component(component), &example)
            .unwrap_err()
            .message(),
        "harness error: component 'synth_qa.system_instruction' must be ComponentValue::Text"
    );
    assert_eq!(session_model("", "default"), "default");
    assert_eq!(session_model("named", "default"), "named");
}

#[test]
fn answers_become_runs() {
    let example = build_train_examples().remove(0);
    let run = answered_run(&example, " JP ");
    assert_eq!(run.example, example);
    assert_eq!(number(run.result.score), 1.0);
    assert_eq!(run.result.example_id, "T01");
    assert_eq!(run.metric_calls, 1);
    assert!(run.trace.is_none());
}
