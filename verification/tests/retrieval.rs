use std::collections::HashSet;

use lash_harness_opt::feedback::{
    build_asi_feedback, calls_fit, extract_search_queries_from_lashlang,
    extract_tool_from_caused_by_call_id,
};
use lash_harness_opt::json::parse_json;
use lash_harness_opt::obliq::{
    build_examples, detect_lash_oblique_bin, final_agent_text, gold_coverage, load_queries,
    parse_qrels_tsv, pool_qrels_path, qrels_path, queries_path, query_of_record, read_error,
    relevance_texts, train_ids, val_ids, Coverage, ObliqHarnessProject,
};
use lash_harness_opt::obliq_evaluation::{ObliqAction, ObliqEvaluation, ObliqEvent};
use lash_harness_opt::{
    Candidate, ComponentValue, HarnessExample, HarnessOptError, Json, OptimizationConfig,
    OptimizationRun, Score, Split, StringMap, TraceContext, TraceEvent, TraceRecord,
};

fn score(x: f64) -> Score {
    Score { bits: x.to_bits() }
}

fn numbers_in(content: &str) -> StringMap<Score> {
    let mut numbers = StringMap::new();
    for text in relevance_texts(content) {
        if let Ok(x) = text.parse::<f64>() {
            numbers.insert(text, score(x));
        }
    }
    numbers
}

fn relevance(qrels: &StringMap<StringMap<Score>>, query: &str, doc: &str) -> f64 {
    f64::from_bits(qrels.get(query).unwrap().get(doc).unwrap().bits)
}

fn share(coverage: &Coverage) -> f64 {
    if coverage.total == 0 {
        0.0
    } else {
        coverage.found as f64 / coverage.total as f64
    }
}

fn strings(texts: &[&str]) -> Vec<String> {
    texts.iter().map(|s| s.to_string()).collect()
}

fn record(event: TraceEvent) -> TraceRecord {
    TraceRecord {
        context: TraceContext::default(),
        event,
        timestamp: Json::text("2026-01-01T00:00:00Z"),
    }
}

fn step(code: &str) -> TraceRecord {
    let payload = Json::object(vec![(
        "diagnostic".to_string(),
        Json::object(vec![(
            "payload".to_string(),
            Json::object(vec![("code".to_string(), Json::text(code))]),
        )]),
    )]);
    record(TraceEvent::ProtocolStep {
        plugin_id: "runtime".to_string(),
        payload,
    })
}

#[test]
fn qrels_tsv_parsing_handles_header_and_3col_format() {
    let fixture = "query-id\tdoc-id\trelevance\n\
                   q02193\td00412\t2\n\
                   q02193\td00103\t1\n\
                   q01486\td00789\t1\n";
    let result = parse_qrels_tsv(fixture, &numbers_in(fixture));
    assert_eq!(relevance(&result, "q02193", "d00412"), 2.0);
    assert_eq!(relevance(&result, "q02193", "d00103"), 1.0);
    assert_eq!(relevance(&result, "q01486", "d00789"), 1.0);
    // Header row must not appear as a key
    assert!(!result.contains_key("query-id"));
}

#[test]
fn qrels_pass_over_what_is_no_row() {
    let fixture = "# q\td\t1\n\n  \nq\td\nq\td\tx\n q \t d \t 0.5 \r\nq\td\t3\tmore";
    assert_eq!(relevance_texts(fixture), ["x", "0.5", "3"]);
    let result = parse_qrels_tsv(fixture, &numbers_in(fixture));
    assert_eq!(result.keys(), ["q"]);
    assert_eq!(relevance(&result, "q", "d"), 3.0);
}

#[test]
fn gold_coverage_computation() {
    // 1 of 2 gold docs in top-3 → 0.5
    let ranked: Vec<String> = ["d1", "d2", "d3"].iter().map(|s| s.to_string()).collect();
    let mut gold: StringMap<Score> = StringMap::new();
    gold.insert("d1".to_string(), score(1.0));
    gold.insert("d4".to_string(), score(1.0));
    let cov = share(&gold_coverage(&ranked, &gold, 3));
    assert!(
        (cov - 0.5).abs() < 1e-9,
        "expected 0.5 (1 of 2 gold in top-3), got {cov}"
    );

    // Empty ranked list → 0.0
    let cov2 = share(&gold_coverage(&[], &gold, 10));
    assert_eq!(cov2, 0.0, "empty ranked list should give 0.0");

    // Empty gold set → 0.0
    let ranked2: Vec<String> = ["d1", "d2"].iter().map(|s| s.to_string()).collect();
    let cov3 = share(&gold_coverage(&ranked2, &StringMap::new(), 10));
    assert_eq!(cov3, 0.0, "empty gold set should give 0.0");
}

#[test]
fn gold_documents_are_counted_once() {
    let mut gold: StringMap<Score> = StringMap::new();
    gold.insert("d1".to_string(), score(1.0));
    let ranked = strings(&["d1", "d1", "d2"]);
    let coverage = gold_coverage(&ranked, &gold, 2);
    assert_eq!((coverage.found, coverage.total), (1, 1));
    assert_eq!(gold_coverage(&ranked[2..], &gold, 2).found, 0);
    assert_eq!(gold_coverage(&ranked, &gold, 0).found, 0);
    let feedback = build_asi_feedback(&[], &ranked, &gold, "0.000", "");
    assert!(feedback.contains("Gold coverage: 1/1 gold documents"));
}

#[test]
fn dataset_split_correctness() {
    let train = train_ids();
    let val = val_ids();
    assert_eq!(train.len(), 7, "train set must have 7 query IDs");
    assert_eq!(val.len(), 3, "val set must have 3 query IDs");

    let mut seen: HashSet<&str> = HashSet::new();
    for id in train.iter().chain(val.iter()) {
        assert!(seen.insert(id), "duplicate query id: {id}");
    }
    assert_eq!(seen.len(), 10, "combined split must cover all 10 math-rep10 queries");
}

#[test]
fn build_asi_feedback_extracts_search_queries_and_tool_counts() {
    let lashlang_code = [
        "@label(title: \"search and judge\")\n",
        "results = await tools.search({\n",
        "  queries: [\n",
        "    \"proof by induction algebra\"\n",
        "  ],\n",
        "  limit: 10\n",
        "})?\n",
        "judge = await tools.judge_candidates({\n",
        "  verifier_predicate: \"uses induction\",\n",
        "  candidates: [\"d1\", \"d2\"]\n",
        "})?",
    ]
    .concat();

    let gold: StringMap<Score> = StringMap::new();
    let feedback = build_asi_feedback(&[step(&lashlang_code)], &[], &gold, "0.000", "");

    assert!(
        feedback.contains("proof by induction algebra"),
        "feedback should contain the search query; got: {feedback}"
    );
    assert!(
        feedback.contains("search×1"),
        "feedback should show search×1; got: {feedback}"
    );
    assert!(
        feedback.contains("judge_candidates×1"),
        "feedback should show judge_candidates×1; got: {feedback}"
    );
}

#[test]
fn build_asi_feedback_zero_tool_calls_produces_explicit_message() {
    let gold: StringMap<Score> = StringMap::new();
    let feedback = build_asi_feedback(&[], &[], &gold, "0.000", "");
    assert!(
        feedback.contains("none"),
        "feedback for zero tool calls should contain 'none'; got: {feedback}"
    );
    assert_eq!(
        feedback,
        "Score: NDCG@10=0.000\n\
         Tool calls: none — agent submitted without using retrieval tools\n\
         Search queries issued:\n  (none — agent made no search calls)\n\
         Gold coverage: 0/0 gold documents in top 100\n\
         Top submitted docs: (none submitted)\n\
         Final agent text: (empty)"
    );
}

#[test]
fn build_asi_feedback_gold_coverage_in_feedback_string() {
    let ranked_with_gold: Vec<String> =
        ["d_gold", "d_other1", "d_other2"].iter().map(|s| s.to_string()).collect();
    let mut gold: StringMap<Score> = StringMap::new();
    gold.insert("d_gold".to_string(), score(1.0));

    let feedback_hit = build_asi_feedback(&[], &ranked_with_gold, &gold, "0.000", "");
    assert!(
        feedback_hit.contains("1/1"),
        "feedback should show 1/1 gold coverage; got: {feedback_hit}"
    );

    let ranked_no_gold: Vec<String> =
        ["d_other1", "d_other2"].iter().map(|s| s.to_string()).collect();
    let feedback_miss = build_asi_feedback(&[], &ranked_no_gold, &gold, "0.000", "");
    assert!(
        feedback_miss.contains("0/1"),
        "feedback should show 0/1 gold coverage; got: {feedback_miss}"
    );
}

#[test]
fn build_asi_feedback_truncates_to_eight_search_queries() {
    let calls: String = (1u32..=12)
        .map(|i| {
            format!(
                "r{i} = await tools.search({{\n  queries: [\n    \"search query number {i}\"\n  ],\n  limit: 10\n}})?\n"
            )
        })
        .collect();

    let gold: StringMap<Score> = StringMap::new();
    let feedback = build_asi_feedback(&[step(&calls)], &[], &gold, "0.000", "");

    // Query 8 should appear (1-indexed in the output), query 9 should not.
    assert!(
        feedback.contains("8."),
        "feedback should show query 8; got: {feedback}"
    );
    assert!(
        !feedback.contains("9."),
        "feedback should not show query 9; got: {feedback}"
    );
    // Total count (12) should be mentioned.
    assert!(
        feedback.contains("12"),
        "feedback should indicate 12 total queries; got: {feedback}"
    );
    assert!(feedback.contains("  ... (12 total, showing first 8)"));
}

fn failed_call(call_id: &str) -> TraceRecord {
    let mut failed = record(TraceEvent::LlmCallFailed);
    failed.context.metadata.insert(
        "caused_by".to_string(),
        Json::object(vec![("call_id".to_string(), Json::text(call_id))]),
    );
    failed
}

#[test]
fn feedback_has_its_exact_form() {
    let records = [
        step("tools.search({queries: [\"one\", \"\", \"two\"]}) tools.search({limit: 1})"),
        step("tools.discover_docs( tools.search( no queries"),
        record(TraceEvent::ProtocolStep {
            plugin_id: "else".to_string(),
            payload: Json::Null,
        }),
        failed_call("lashlang:s:resource:tool:judge_candidates:resource_operation:h:1"),
        failed_call("lashlang:s:resource:tool:judge_candidates:resource_operation:h:2"),
        failed_call("lashlang:s:resource:tool::x"),
        record(TraceEvent::LlmCallFailed),
    ];
    assert!(calls_fit(&records));
    let ranked: Vec<String> = (0..12).map(|i| format!("d{i}")).collect();
    let mut gold = StringMap::new();
    gold.insert("d3".to_string(), score(2.0));
    gold.insert("d11".to_string(), score(1.0));
    gold.insert("none".to_string(), score(1.0));
    let long = "x".repeat(301);
    let feedback = build_asi_feedback(&records, &ranked, &gold, "0.250", &long);
    assert_eq!(
        feedback,
        format!(
            "Score: NDCG@10=0.250\n\
             Tool calls: discover_docs×1, search×3\n\
             Tool failures (internal LLM errors): judge_candidates×2\n\
             Search queries issued:\n  1. \"one\"\n  2. \"two\"\n\
             Gold coverage: 2/3 gold documents in top 100\n\
             Top submitted docs: [d0, d1, d2, d3, d4, d5, d6, d7, d8, d9]\n\
             Final agent text: {}...",
            "x".repeat(300)
        )
    );
}

#[test]
fn queries_are_extracted_until_there_are_enough() {
    let mut out = strings(&["a", "b", "c", "d", "e", "f", "g"]);
    extract_search_queries_from_lashlang("tools.search(queries:\u{a0}[\"h\",\"i\"]", &mut out);
    assert_eq!(out.len(), 8);
    assert_eq!(out[7], "h");
    let mut many = strings(&["1"; 9]);
    extract_search_queries_from_lashlang("tools.search(queries: [\"h\"]", &mut many);
    assert_eq!(many.len(), 9);
    let mut none: Vec<String> = vec![];
    extract_search_queries_from_lashlang(
        "queries: [\"x\"] tools.search(queries: \"y\" tools.search(queries: [\"z\" \
         tools.search(queries: [a\"b\"c\"d]",
        &mut none,
    );
    assert_eq!(none, ["b"]);
}

#[test]
fn tools_are_named_by_call_ids() {
    let tool = |id: &str| extract_tool_from_caused_by_call_id(id);
    assert_eq!(
        tool("lashlang:s:resource:tool:search:resource_operation:h:1").as_deref(),
        Some("search")
    );
    assert_eq!(
        tool("lashlang:a:b:resource:tool:judge:resource_operation::").as_deref(),
        Some("judge")
    );
    assert_eq!(
        tool("lashlang:s:resource:tool:x:resource:tool:y:resource_operation:h:1").as_deref(),
        Some("y")
    );
    assert_eq!(tool("lashlang:s1:resource:tool:search"), None);
    assert_eq!(tool("lashlang:s:resource:tool:search:resource_operation:h"), None);
    assert_eq!(tool("lashlang:s:resource:tool:search:other:h:1"), None);
    assert_eq!(tool("lashlang:s:resource:tool::resource_operation:h:1"), None);
    assert_eq!(tool("x:resource:tool:search:resource_operation:h:1"), None);
    assert_eq!(tool("nothing"), None);
}

fn all_queries() -> String {
    train_ids()
        .iter()
        .chain(val_ids().iter())
        .map(|id| format!("{{\"_id\":\"{id}\",\"text\":\"text of {id}\"}}\n"))
        .collect()
}

fn project() -> ObliqHarnessProject {
    let qrels = "q02193\td1\t1\n";
    ObliqHarnessProject::new(
        "bin".to_string(),
        "dir".to_string(),
        "data".to_string(),
        "model".to_string(),
        Some("high".to_string()),
        strings(&["search"]),
        &all_queries(),
        qrels,
        &numbers_in(qrels),
    )
    .unwrap()
}

fn run() -> OptimizationRun {
    OptimizationRun {
        run_id: "r".to_string(),
        experiment_id: "x".to_string(),
        run_dir: "out".to_string(),
        config: OptimizationConfig::default(),
    }
}

fn first_example() -> HarnessExample {
    project().trainset().unwrap().remove(0)
}

#[test]
fn queries_are_loaded_by_line() {
    let queries = load_queries("\n {\"_id\":\"a\",\"text\":\"A\"} \r\n\n{\"_id\":\"a\",\"text\":\"B\"}").unwrap();
    assert_eq!(queries.keys(), ["a"]);
    assert_eq!(queries.get("a").unwrap(), "B");
    let message = |content: &str| load_queries(content).unwrap_err().message();
    let parse_error = serde_json::from_str::<serde_json::Value>("{").unwrap_err();
    assert_eq!(
        message("\n{"),
        format!("harness error: parse queries.jsonl line 2: {parse_error}")
    );
    assert_eq!(
        message("{\"text\":\"t\"}"),
        "harness error: queries.jsonl line 1: missing '_id' field"
    );
    assert_eq!(
        message("{\"_id\":\"q\",\"text\":1}"),
        "harness error: queries.jsonl line 1: missing 'text' field for id='q'"
    );
    let record = parse_json("{\"_id\":\"q\",\"text\":\"t\"}").unwrap();
    assert_eq!(
        query_of_record(&record, 4).unwrap(),
        ("q".to_string(), "t".to_string())
    );
}

#[test]
fn examples_are_built_from_queries() {
    let examples = project().valset().unwrap();
    assert_eq!(examples.len(), 3);
    assert!(examples.iter().all(|e| e.split == Split::Val));
    assert_eq!(examples[0].id, "q00844");
    assert_eq!(
        examples[0].input.get("text").unwrap().as_str().unwrap(),
        "text of q00844"
    );
    assert_eq!(
        examples[0].metadata.get("subset").unwrap().as_str().unwrap(),
        "math"
    );
    assert_eq!(project().trainset().unwrap().len(), 7);
    let error = build_examples(&train_ids(), Split::Train, &StringMap::new()).unwrap_err();
    assert_eq!(
        error.message(),
        "harness error: missing query text for 'q02193' in queries.jsonl"
    );
}

#[test]
fn paths_of_the_data_are_chosen() {
    assert_eq!(queries_path("data"), "data/math/queries.jsonl");
    assert_eq!(pool_qrels_path("data"), "data/math/qrels_pool.tsv");
    assert_eq!(qrels_path("data", Some(1)), "data/math/qrels_pool.tsv");
    assert_eq!(qrels_path("data", Some(0)), "data/math/qrels.tsv");
    assert_eq!(qrels_path("data", None), "data/math/qrels.tsv");
    assert_eq!(
        detect_lash_oblique_bin(&Some("t".to_string()), "o"),
        "t/release/lash-oblique"
    );
    assert_eq!(
        detect_lash_oblique_bin(&None, "o"),
        "o/target/release/lash-oblique"
    );
    assert_eq!(read_error("p", "e").message(), "harness error: read p: e");
}

#[test]
fn seeds_hold_the_instructions() {
    let seed = project().seed_candidate();
    let component = seed.component("obliq.task_instructions").unwrap();
    assert_eq!(component.constraints.max_chars, Some(4000));
    assert_eq!(component.constraints.preserve_terms, ["search"]);
    match &component.value {
        ComponentValue::Text { text } => {
            assert!(text.starts_with("# Task\nFind documents"));
            assert!(text.ends_with("to produce the final ranking."));
            assert!(text.contains("(pass 2–6 independent query strings per call)"));
        }
        _ => panic!("no text"),
    }
    assert_eq!(
        seed.metadata.get("project").unwrap().as_str().unwrap(),
        "obliq-math"
    );
}

#[test]
fn unusable_candidates_end_at_once() {
    let example = first_example();
    let ended = |candidate: &Candidate| {
        match ObliqEvaluation::start(&project(), &run(), candidate, &example).1 {
            ObliqAction::Finish(run) => run,
            other => panic!("{other:?}"),
        }
    };
    let mut candidate = project().seed_candidate();
    let mut component = candidate
        .mutable_components
        .remove("obliq.task_instructions")
        .unwrap();
    let missing = ended(&candidate);
    assert_eq!(
        missing.result.feedback.as_deref(),
        Some("missing mutable component 'obliq.task_instructions'")
    );
    assert_eq!(missing.metric_calls, 0);
    assert_eq!(
        missing.result.diagnostics.get("error_count").unwrap().as_u64(),
        Some(1)
    );
    component.value = ComponentValue::Json { value: Json::Null };
    let untyped = ended(&candidate.clone().with_component(component.clone()));
    assert_eq!(
        untyped.result.feedback.as_deref(),
        Some("component 'obliq.task_instructions' must be ComponentValue::Text")
    );
    component.value = ComponentValue::Text {
        text: "nothing".to_string(),
    };
    let violating = ended(&candidate.with_component(component));
    assert_eq!(
        violating.result.feedback.as_deref(),
        Some("Constraint violation: missing required term 'search'")
    );
    assert_eq!(
        violating
            .result
            .diagnostics
            .get("violated_term")
            .unwrap()
            .as_str()
            .unwrap(),
        "search"
    );
    assert_eq!(violating.metric_calls, 0);
}

fn launched() -> (ObliqEvaluation, ObliqAction) {
    ObliqEvaluation::start(&project(), &run(), &project().seed_candidate(), &first_example())
}

#[test]
fn evaluations_plan_their_command() {
    match launched().1 {
        ObliqAction::Launch(plan) => {
            assert!(plan.instructions.starts_with("# Task"));
            assert_eq!(plan.work_dir, "out/candidates/seed");
            assert_eq!(
                plan.instructions_file,
                "out/candidates/seed/obliq-instructions.txt"
            );
            assert_eq!(
                plan.arguments,
                [
                    "run-batch",
                    "--subsets",
                    "math",
                    "--tasks",
                    "q02193",
                    "--model",
                    "model",
                    "--variant",
                    "high",
                    "--task-instructions-file",
                    "out/candidates/seed/obliq-instructions.txt",
                    "--concurrency",
                    "1",
                    "--data-dir",
                    "data",
                    "--output-dir",
                    "out/candidates/seed/.benchmarks/obliq/runs/q02193",
                ]
            );
        }
        other => panic!("{other:?}"),
    }
}

fn at_output() -> ObliqEvaluation {
    let (state, _) = launched();
    let (state, action) = state.step(ObliqEvent::Exited {
        success: true,
        status: "exit status: 0".to_string(),
    });
    assert_eq!(
        action,
        ObliqAction::ReadLatest(
            "out/candidates/seed/.benchmarks/obliq/runs/q02193/_latest".to_string()
        )
    );
    let (state, action) = state.step(ObliqEvent::Latest(" abc\n".to_string()));
    assert_eq!(
        action,
        ObliqAction::ReadOutput(
            "out/candidates/seed/.benchmarks/obliq/runs/q02193/abc/math/q02193.json".to_string()
        )
    );
    state
}

#[test]
fn submissions_are_scored() {
    let output = "{\"metrics\":{\"pooled\":{\"ndcg_at_10\":0.25,\"recall_at_10\":0.5,\
                  \"recall_at_100\":1,\"gold_count\":3}},\"tool_calls\":9,\
                  \"errors\":[\"e\",1],\"ranked_doc_ids\":[\"d1\",2,\"d2\"]}";
    let (state, action) = at_output().step(ObliqEvent::Output(output.as_bytes().to_vec()));
    let trace = "out/candidates/seed/.benchmarks/obliq/runs/q02193/abc/math/q02193.trace.jsonl";
    assert_eq!(
        action,
        ObliqAction::ReadTrace {
            path: trace.to_string(),
            score: score(0.25)
        }
    );
    let answer = |text: &str| {
        record(TraceEvent::LlmCallCompleted {
            response_text: text.to_string(),
        })
    };
    let records = vec![answer("first"), answer("last"), answer("")];
    assert_eq!(final_agent_text(&records), "last");
    let (_, action) = state.step(ObliqEvent::Trace {
        records: records.clone(),
        ndcg: "0.250".to_string(),
    });
    match action {
        ObliqAction::Finish(run) => {
            assert_eq!(run.result.score, score(0.25));
            assert_eq!(run.result.passed, Some(true));
            assert_eq!(run.result.metrics.get("recall_at_100"), Some(&score(1.0)));
            assert_eq!(run.result.metrics.get("gold_count"), Some(&score(3.0)));
            assert_eq!(
                run.result.diagnostics.get("tool_call_count").unwrap().as_u64(),
                Some(9)
            );
            assert_eq!(
                run.result.diagnostics.get("error_count").unwrap().as_u64(),
                Some(2)
            );
            let feedback = run.result.feedback.unwrap();
            assert!(feedback.contains("Gold coverage: 1/1"));
            assert!(feedback.contains("Top submitted docs: [d1, d2]"));
            assert!(feedback.ends_with("Final agent text: last"));
            assert_eq!(run.trace.unwrap().records, records);
            assert_eq!(run.artifacts.typed_trace_jsonl.as_deref(), Some(trace));
            assert_eq!(run.metric_calls, 1);
        }
        other => panic!("{other:?}"),
    }
}

#[test]
fn missing_submissions_are_failed_runs() {
    let output = b"{\"metrics\":null,\"errors\":[\"a\",5,\"b\"]}".to_vec();
    let (_, action) = at_output().step(ObliqEvent::Output(output));
    match action {
        ObliqAction::Finish(run) => {
            assert_eq!(
                run.result.feedback.as_deref(),
                Some("agent did not submit a ranked list; errors: a; b")
            );
            assert_eq!(
                run.result.diagnostics.get("error_count").unwrap().as_u64(),
                Some(2)
            );
            assert_eq!(
                run.result.diagnostics.get("turn_outcome").unwrap().as_str().unwrap(),
                "no_submission"
            );
            assert!(run.trace.unwrap().records.is_empty());
            assert_eq!(run.metric_calls, 1);
        }
        other => panic!("{other:?}"),
    }
}

#[test]
fn failures_end_the_evaluation() {
    let failed = |action: ObliqAction| match action {
        ObliqAction::Fail(error) => error.message(),
        other => panic!("{other:?}"),
    };
    let (state, _) = launched();
    let (_, action) = state.step(ObliqEvent::NotLaunched("no such file".to_string()));
    assert_eq!(
        failed(action),
        "harness error: failed to launch lash-oblique: no such file"
    );
    let (state, _) = launched();
    let (_, action) = state.step(ObliqEvent::Exited {
        success: false,
        status: "exit status: 2".to_string(),
    });
    match action {
        ObliqAction::Finish(run) => {
            assert_eq!(
                run.result.feedback.as_deref(),
                Some("lash-oblique exited with status: exit status: 2")
            );
            assert_eq!(run.metric_calls, 1);
        }
        other => panic!("{other:?}"),
    }
    let (_, action) = at_output().step(ObliqEvent::NotRead("gone".to_string()));
    assert!(failed(action).ends_with("math/q02193.json: gone"));
    let (_, action) = at_output().step(ObliqEvent::Output(b"{".to_vec()));
    assert!(failed(action).starts_with("json error: "));
    let (_, action) = at_output().step(ObliqEvent::Failed(HarnessOptError::Cancelled));
    assert_eq!(failed(action), "optimizer cancelled");
    let (_, action) = at_output().step(ObliqEvent::Latest("again".to_string()));
    assert_eq!(failed(action), "harness error: unexpected event");
}
