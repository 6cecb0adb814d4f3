use lash_harness_opt::json::parse_json;
use lash_harness_opt::proposer::{
    assistant_prose, conclude_turn, default_gepa_proposer_prompt_template,
    default_model_for_provider, output_path, prompt_path, proposer_model, render_answer,
    render_gepa_proposer_prompt, render_prompt_template, session_name, turn_name,
    with_proposal_artifact_refs, PromptTemplateValues, ProposerTurn, ProviderModels,
};
use lash_harness_opt::strategies::gepa::{
    parse_candidate_proposals, proposal_output_schema, reflective_request,
    render_reflective_evidence, render_trace_record, ReflectiveGepaStrategy,
    ReflectiveProposalRequest,
};
use lash_harness_opt::{
    Candidate, CandidateProposal, ComponentConstraints, ComponentValue, EvaluationResult,
    EvidenceBatch, ExampleRun, HarnessExample, HarnessOptError, Json, MutableComponent,
    RunArtifacts, Score, Split, StrategyRequest, StringMap, TraceBundle, TraceContext, TraceEvent,
    TraceRecord,
};

fn example(id: &str, split: Split) -> HarnessExample {
    HarnessExample {
        id: id.to_string(),
        split,
        input: Json::object(vec![("question".to_string(), Json::text(id))]),
        expected: None,
        metadata: StringMap::new(),
    }
}

fn evidence_run() -> ExampleRun {
    let context = TraceContext {
        run_id: Some("run".to_string()),
        experiment_id: Some("exp".to_string()),
        candidate_id: Some("cand".to_string()),
        candidate_parent_id: Some("parent".to_string()),
        example_id: Some("ex".to_string()),
        split: Some("train".to_string()),
        ..TraceContext::default()
    };
    let mut diagnostics = StringMap::new();
    diagnostics.insert("tool_call_count".to_string(), Json::unsigned(2));
    diagnostics.insert("error_count".to_string(), Json::unsigned(1));
    ExampleRun {
        example: example("ex", Split::Train),
        result: EvaluationResult {
            example_id: "ex".to_string(),
            split: Split::Train,
            score: Score {
                bits: 0.5f64.to_bits(),
            },
            passed: Some(false),
            feedback: Some("needs better memory use".to_string()),
            metrics: StringMap::new(),
            diagnostics,
        },
        trace: Some(TraceBundle {
            example_id: "ex".to_string(),
            records: vec![TraceRecord {
                context,
                event: TraceEvent::TurnStarted,
                timestamp: Json::text("2026-01-01T00:00:00Z"),
            }],
        }),
        artifacts: RunArtifacts::default(),
        metric_calls: 1,
    }
}

fn at<'a>(value: &'a Json, key: &str) -> &'a Json {
    value.get(key).unwrap()
}

#[test]
fn gepa_proposal_schema_validation_rejects_missing_proposals() {
    let err = parse_candidate_proposals(
        &Json::object(vec![("patches".to_string(), Json::array(vec![]))]),
        Ok(vec![]),
    )
    .unwrap_err();

    assert!(matches!(err, HarnessOptError::InvalidProposal(_)));
    assert_eq!(err.message(), "invalid proposal: missing proposals");
}

#[test]
fn reflective_evidence_renders_trace_feedback() {
    let evidence = render_reflective_evidence(&[evidence_run()], &["0.5".to_string()]);

    let first = &at(&evidence, "examples").as_array().unwrap()[0];
    assert_eq!(
        at(first, "feedback").as_str().unwrap(),
        "needs better memory use"
    );
    assert_eq!(
        at(
            at(&at(first, "trace").as_array().unwrap()[0], "context"),
            "run_id"
        )
        .as_str()
        .unwrap(),
        "run"
    );
}

#[test]
fn evidence_has_its_exact_form() {
    let mut quiet = evidence_run();
    quiet.result.feedback = None;
    quiet.result.passed = None;
    quiet.trace = None;
    let evidence = render_reflective_evidence(
        &[quiet, evidence_run()],
        &["0.5".to_string(), "0.5".to_string()],
    );
    let wanted = parse_json(
        "{\"examples\":[{\"diary_behavior\":null,\"error_count\":1,\"example_id\":\"ex\",\
         \"feedback\":null,\"passed\":null,\"schema_failure\":null,\"score\":0.5,\
         \"split\":\"train\",\"tool_call_count\":2,\"trace\":[],\"turn_outcome\":null},\
         {\"diary_behavior\":null,\"error_count\":1,\"example_id\":\"ex\",\
         \"feedback\":\"needs better memory use\",\"passed\":false,\"schema_failure\":null,\
         \"score\":0.5,\"split\":\"train\",\"tool_call_count\":2,\"trace\":[{\"context\":\
         {\"candidate_id\":\"cand\",\"candidate_parent_id\":\"parent\",\"example_id\":\"ex\",\
         \"experiment_id\":\"exp\",\"run_id\":\"run\",\"split\":\"train\"},\
         \"event\":\"turn_started\",\"timestamp\":\"2026-01-01T00:00:00Z\"}],\
         \"turn_outcome\":null}],\
         \"feedback_sections\":\"--- Example ex ---\\nneeds better memory use\\n\"}",
    )
    .unwrap();
    assert_eq!(evidence, wanted);
    let nothing = render_reflective_evidence(&[], &[]);
    assert_eq!(
        nothing.to_compact(),
        "{\"examples\":[],\"feedback_sections\":null}"
    );
}

#[test]
fn events_have_names() {
    let record = |event: TraceEvent| TraceRecord {
        context: TraceContext::default(),
        event,
        timestamp: Json::Null,
    };
    let name = |event: TraceEvent| {
        at(&render_trace_record(&record(event)), "event")
            .as_str()
            .unwrap()
            .clone()
    };
    assert_eq!(name(TraceEvent::ToolCallStarted), "tool_call_started");
    assert_eq!(
        name(TraceEvent::LlmCallCompleted {
            response_text: String::new()
        }),
        "llm_call_completed"
    );
    assert_eq!(name(TraceEvent::Other), "other");
    assert_eq!(
        name(TraceEvent::ProtocolStep {
            plugin_id: "p".to_string(),
            payload: Json::Null
        }),
        "other"
    );
}

#[test]
fn schema_has_its_exact_form() {
    let wanted = parse_json(
        "{\"type\":\"object\",\"additionalProperties\":false,\"required\":[\"proposals\"],\
         \"properties\":{\"proposals\":{\"type\":\"array\",\"minItems\":1,\"items\":{\
         \"type\":\"object\",\"additionalProperties\":false,\
         \"required\":[\"parent_candidate_id\",\"patches\"],\"properties\":{\
         \"parent_candidate_id\":{\"type\":\"string\"},\"rationale\":{\"type\":\"string\"},\
         \"patches\":{\"type\":\"array\",\"minItems\":1,\"items\":{\"type\":\"object\",\
         \"additionalProperties\":false,\"required\":[\"kind\",\"component_id\",\"value\"],\
         \"properties\":{\"kind\":{\"const\":\"replace_value\"},\
         \"component_id\":{\"type\":\"string\"},\"value\":{\"oneOf\":[\
         {\"type\":\"object\",\"additionalProperties\":false,\"required\":[\"kind\",\"text\"],\
         \"properties\":{\"kind\":{\"const\":\"text\"},\"text\":{\"type\":\"string\"}}},\
         {\"type\":\"object\",\"additionalProperties\":false,\"required\":[\"kind\",\"value\"],\
         \"properties\":{\"kind\":{\"const\":\"json\"},\"value\":{}}},\
         {\"type\":\"object\",\"additionalProperties\":false,\"required\":[\"kind\",\"template\"],\
         \"properties\":{\"kind\":{\"const\":\"prompt_template\"},\
         \"template\":{\"type\":\"object\"}}},\
         {\"type\":\"object\",\"additionalProperties\":false,\
         \"required\":[\"kind\",\"contribution\"],\"properties\":{\
         \"kind\":{\"const\":\"prompt_contribution\"},\
         \"contribution\":{\"type\":\"object\"}}}]}}}},\
         \"metadata\":{\"type\":\"object\"}}}}}}",
    )
    .unwrap();
    assert_eq!(proposal_output_schema(), wanted);
}

fn proposal() -> CandidateProposal {
    CandidateProposal {
        parent_candidate_id: "seed".to_string(),
        patches: vec![],
        rationale: None,
        metadata: StringMap::new(),
    }
}

#[test]
fn answers_need_a_proposal() {
    let value = Json::object(vec![("proposals".to_string(), Json::array(vec![]))]);
    assert_eq!(
        parse_candidate_proposals(&value, Ok(vec![])).unwrap_err().message(),
        "invalid proposal: proposal list is empty"
    );
    assert_eq!(
        parse_candidate_proposals(&value, Err("bad".to_string())).unwrap_err().message(),
        "invalid proposal: bad"
    );
    assert_eq!(
        parse_candidate_proposals(&value, Ok(vec![proposal()])).unwrap(),
        [proposal()]
    );
}

fn request() -> ReflectiveProposalRequest {
    let mut mutable_components = StringMap::new();
    mutable_components.insert(
        "instruction".to_string(),
        MutableComponent {
            id: "instruction".to_string(),
            description: None,
            value: ComponentValue::Text {
                text: "do ok".to_string(),
            },
            constraints: ComponentConstraints {
                max_chars: None,
                preserve_terms: vec!["ok".to_string()],
                forbidden_terms: vec![],
                format_hint: Some("short".to_string()),
            },
        },
    );
    ReflectiveProposalRequest {
        run_id: "r1".to_string(),
        experiment_id: "x".to_string(),
        generation: 3,
        artifact_dir: "out/proposals/3".to_string(),
        parent_candidate_id: "seed".to_string(),
        mutable_components,
        evidence: Json::object(vec![("examples".to_string(), Json::array(vec![]))]),
        output_schema: Json::object(vec![]),
    }
}

#[test]
fn prompts_are_rendered_from_a_template() {
    let template = "{{parent_candidate_id}}|{{mutable_components_json}}|{{evidence_json}}|\
                    {{output_schema_json}}|{{parent_candidate_id}}";
    let prompt = render_gepa_proposer_prompt(&request(), &Some(template.to_string()));
    assert_eq!(
        prompt,
        "seed|{\n  \"instruction\": {\n    \"id\": \"instruction\",\n    \"value\": {\n      \
         \"kind\": \"text\",\n      \"text\": \"do ok\"\n    },\n    \"constraints\": {\n      \
         \"preserve_terms\": [\n        \"ok\"\n      ],\n      \"format_hint\": \"short\"\n    }\n  \
         }\n}|{\n  \"examples\": []\n}|{}|seed"
    );
    let prompt = render_gepa_proposer_prompt(&request(), &None);
    assert!(prompt.starts_with("You are GEPA inside Lash RLM mode."));
    assert!(prompt.contains("Parent candidate id:\nseed\n"));
    assert!(!prompt.contains("{{"));
    assert!(default_gepa_proposer_prompt_template().contains("{{evidence_json}}"));
}

#[test]
fn filled_places_are_filled_again() {
    let values = PromptTemplateValues {
        parent_candidate_id: "{{evidence_json}}".to_string(),
        mutable_components_json: "m".to_string(),
        evidence_json: "e".to_string(),
        output_schema_json: "o".to_string(),
    };
    assert_eq!(
        render_prompt_template("{{parent_candidate_id}}{{output_schema_json}}", &values),
        "eo"
    );
}

#[test]
fn providers_have_default_models() {
    let models = ProviderModels {
        anthropic: "first".to_string(),
        openai_compatible: "second".to_string(),
    };
    let model = |kind: &str| default_model_for_provider(kind, &models);
    assert_eq!(model("anthropic"), "first");
    assert_eq!(model("openai"), "gpt-5.4");
    assert_eq!(model("openai-compatible"), "second");
    assert_eq!(model("codex"), "gpt-5.5");
    assert_eq!(model("google_oauth"), "gemini-3.1-pro-preview");
    assert_eq!(model("something"), "mock-model");
    assert_eq!(proposer_model(&None, "openai", &models), "gpt-5.4");
    assert_eq!(
        proposer_model(&Some("named".to_string()), "openai", &models),
        "named"
    );
}

#[test]
fn sessions_and_files_are_named() {
    assert_eq!(session_name(&request()), "harness-opt-gepa-r1-3");
    assert_eq!(turn_name(&request()), "harness-opt-gepa-turn-r1-3");
    assert_eq!(prompt_path(&request()), "out/proposals/3/prompt.md");
    assert_eq!(output_path(&request()), "out/proposals/3/output.json");
    assert_eq!(
        assistant_prose(&vec!["a".to_string(), "".to_string(), "b".to_string()]),
        "ab"
    );
}

#[test]
fn proposals_refer_to_prompt_and_answer() {
    let value = parse_json(
        "{\"other\":1,\"proposals\":[{\"patches\":[]},{\"metadata\":{\"z\":1,\"rlm_prompt_ref\":2}},\
         {\"metadata\":5},7]}",
    )
    .unwrap();
    let after = with_proposal_artifact_refs(value, "P", "O");
    assert_eq!(
        after.to_compact(),
        "{\"other\":1,\"proposals\":[{\"metadata\":{\"rlm_output_ref\":\"O\",\
         \"rlm_prompt_ref\":\"P\"},\"patches\":[]},{\"metadata\":{\"rlm_output_ref\":\"O\",\
         \"rlm_prompt_ref\":\"P\",\"z\":1}},{\"metadata\":5},7]}"
    );
    let plain = Json::object(vec![("proposals".to_string(), Json::Null)]);
    assert_eq!(with_proposal_artifact_refs(plain.clone(), "P", "O"), plain);
    assert_eq!(
        with_proposal_artifact_refs(Json::Bool(true), "P", "O"),
        Json::Bool(true)
    );
}

#[test]
fn turns_are_concluded() {
    let value = parse_json("{\"proposals\":[{}]}").unwrap();
    let answer = conclude_turn(&request(), ProposerTurn::Finished(value.clone()), "prose").unwrap();
    assert_eq!(
        answer,
        with_proposal_artifact_refs(
            value,
            "out/proposals/3/prompt.md",
            "out/proposals/3/output.json"
        )
    );
    let error = conclude_turn(
        &request(),
        ProposerTurn::Unfinished("Stopped".to_string(), "[]".to_string()),
        "prose",
    )
    .unwrap_err();
    assert_eq!(
        error.message(),
        "strategy error: GEPA RLM proposer did not finish a proposal: outcome=Stopped errors=[] \
         output=prose"
    );
    assert_eq!(
        render_answer(&Json::unsigned(1), &Json::array(vec![]), "p"),
        "{\n  \"assistant_prose\": \"p\",\n  \"errors\": [],\n  \"value\": 1\n}"
    );
}

#[test]
fn requests_carry_the_selected_components() {
    let components = request().mutable_components;
    let strategy = StrategyRequest {
        run_id: "r".to_string(),
        experiment_id: "x".to_string(),
        generation: 2,
        artifact_dir: "dir".to_string(),
        evidence: EvidenceBatch {
            parent: Candidate {
                id: "seed".to_string(),
                parent_id: None,
                mutable_components: components.clone(),
                immutable_context: StringMap::new(),
                metadata: StringMap::new(),
            },
            evaluated_examples: vec![evidence_run()],
            frontier: vec![],
        },
    };
    let made = reflective_request(strategy, &["0.5".to_string()]);
    assert_eq!(made.parent_candidate_id, "seed");
    assert_eq!(made.mutable_components, components);
    assert_eq!(made.output_schema, proposal_output_schema());
    assert_eq!(
        made.evidence,
        render_reflective_evidence(&[evidence_run()], &["0.5".to_string()])
    );
    assert_eq!(made.generation, 2);
    assert_eq!(ReflectiveGepaStrategy::new(5).proposer, 5);
}
