//! Laws of what a proposer is given and of what it answers.

use vstd::prelude::*;

use crate::fingerprint::components_document;
use crate::json::{lookup, member, pretty, put_members_are_found, unsigned_number, JsonView};
use crate::laws::text::{
    texts_are_cut_at_the_first_occurrence, texts_without_the_pattern_stay_whole,
};
use crate::model::{
    split_name, CandidateProposalView, ExampleRunView, HarnessOptErrorView, StrategyRequestView,
    TraceEventView, TraceRecordView,
};
use crate::proposer::{
    answer_document, proposals_name_their_artifacts, proposer_prompt, provider_model,
    with_artifact_refs, with_refs,
};
use crate::strategies::gepa::{
    constant, event_name, evidence, exact_object, feedback_sections, filled_array, output_schema,
    patch_schema, proposal_schema, proposals_of, reflective, rendered_record, rendered_run, typed,
    value_schema, ReflectiveProposalRequestView,
};
use crate::text::{is_infix, joined, occurs_at, replaced};

verus! {

/// Whether a text has no brace that opens a place.
pub open spec fn plain(text: Seq<char>) -> bool {
    forall|i: int| 0 <= i < text.len() ==> #[trigger] text[i] != '{'
}

/// Whether a text is the name of a place between two braces.
spec fn place_name(place: Seq<char>) -> bool {
    &&& place.len() > 3
    &&& place[0] == '{'
    &&& place[1] == '{'
    &&& forall|i: int| 2 <= i < place.len() ==> #[trigger] place[i] != '{'
}

proof fn lemma_places()
    ensures
        place_name("{{parent_candidate_id}}"@),
        place_name("{{mutable_components_json}}"@),
        place_name("{{evidence_json}}"@),
        place_name("{{output_schema_json}}"@),
        "{{parent_candidate_id}}"@[2] == 'p',
        "{{mutable_components_json}}"@[2] == 'm',
        "{{evidence_json}}"@[2] == 'e',
        "{{output_schema_json}}"@[2] == 'o',
{
    reveal_strlit("{{parent_candidate_id}}");
    reveal_strlit("{{mutable_components_json}}");
    reveal_strlit("{{evidence_json}}");
    reveal_strlit("{{output_schema_json}}");
}

proof fn lemma_other_place(x: Seq<char>, place: Seq<char>, y: Seq<char>, other: Seq<char>)
    requires
        plain(x),
        plain(y),
        place_name(place),
        place_name(other),
        place[2] != other[2],
    ensures
        !is_infix(other, x + place + y),
{
    let t = x + place + y;
    if is_infix(other, t) {
        let j = choose|j: int| occurs_at(t, other, j);
        let found = t.subrange(j, j + other.len());
        assert(found[0] == t[j] && found[1] == t[j + 1] && found[2] == t[j + 2]);
        let n = x.len() as int;
        if j < n {
            assert(t[j] == x[j]);
        } else if j == n {
            assert(t[j + 2] == place[2]);
        } else if j < n + place.len() {
            if j == n + 1 {
                assert(t[j + 1] == place[2]);
            } else {
                assert(t[j] == place[j - n]);
            }
        } else {
            assert(t[j] == y[j - n - place.len()]);
        }
    }
}

proof fn lemma_filled_place(x: Seq<char>, place: Seq<char>, y: Seq<char>, value: Seq<char>)
    requires
        plain(x),
        plain(y),
        place_name(place),
    ensures
        replaced(x + place + y, place, value) == x + value + y,
{
    assert forall|i: int| 0 <= i < x.len() implies !occurs_at(x + place, place, i) by {
        if occurs_at(x + place, place, i) {
            assert((x + place).subrange(i, i + place.len())[0] == x[i]);
        }
    }
    assert(!is_infix(place, y)) by {
        if is_infix(place, y) {
            let j = choose|j: int| occurs_at(y, place, j);
            assert(y.subrange(j, j + place.len())[0] == y[j]);
        }
    }
    texts_are_cut_at_the_first_occurrence(x, place, y, value);
    texts_without_the_pattern_stay_whole(y, place, value);
}

/// A prompt has at each place of its template what the place is named after: the id of the parent,
/// its components, the evidence and the schema of the answer, each as JSON. So it is where what is
/// put in holds no other place.
#[verifier::spinoff_prover]
pub proof fn prompts_have_values_at_their_places(
    request: ReflectiveProposalRequestView,
    x: Seq<char>,
    y: Seq<char>,
)
    requires
        plain(x),
        plain(y),
    ensures
        ({
            let components = pretty(components_document(request.mutable_components));
            let evidence = pretty(request.evidence);
            let schema = pretty(request.output_schema);
            let parent = request.parent_candidate_id;
            &&& plain(parent) ==> proposer_prompt(
                request,
                Some(x + "{{parent_candidate_id}}"@ + y),
            ) == x + parent + y
            &&& !is_infix("{{evidence_json}}"@, x + components + y) && !is_infix(
                "{{output_schema_json}}"@,
                x + components + y,
            ) ==> proposer_prompt(request, Some(x + "{{mutable_components_json}}"@ + y)) == x
                + components + y
            &&& !is_infix("{{output_schema_json}}"@, x + evidence + y) ==> proposer_prompt(
                request,
                Some(x + "{{evidence_json}}"@ + y),
            ) == x + evidence + y
            &&& proposer_prompt(request, Some(x + "{{output_schema_json}}"@ + y)) == x + schema
                + y
            &&& proposer_prompt(request, Some(x)) == x
        }),
{
    lemma_places();
    let p1 = "{{parent_candidate_id}}"@;
    let p2 = "{{mutable_components_json}}"@;
    let p3 = "{{evidence_json}}"@;
    let p4 = "{{output_schema_json}}"@;
    let v1 = request.parent_candidate_id;
    let v2 = pretty(components_document(request.mutable_components));
    let v3 = pretty(request.evidence);
    let v4 = pretty(request.output_schema);
    if plain(v1) {
        lemma_filled_place(x, p1, y, v1);
        lemma_plain_whole(x + v1 + y, p2, v2);
        lemma_plain_whole(x + v1 + y, p3, v3);
        lemma_plain_whole(x + v1 + y, p4, v4);
    }
    lemma_other_place(x, p2, y, p1);
    texts_without_the_pattern_stay_whole(x + p2 + y, p1, v1);
    lemma_filled_place(x, p2, y, v2);
    if !is_infix(p3, x + v2 + y) && !is_infix(p4, x + v2 + y) {
        texts_without_the_pattern_stay_whole(x + v2 + y, p3, v3);
        texts_without_the_pattern_stay_whole(x + v2 + y, p4, v4);
    }
    lemma_other_place(x, p3, y, p1);
    lemma_other_place(x, p3, y, p2);
    texts_without_the_pattern_stay_whole(x + p3 + y, p1, v1);
    texts_without_the_pattern_stay_whole(x + p3 + y, p2, v2);
    lemma_filled_place(x, p3, y, v3);
    if !is_infix(p4, x + v3 + y) {
        texts_without_the_pattern_stay_whole(x + v3 + y, p4, v4);
    }
    lemma_other_place(x, p4, y, p1);
    lemma_other_place(x, p4, y, p2);
    lemma_other_place(x, p4, y, p3);
    texts_without_the_pattern_stay_whole(x + p4 + y, p1, v1);
    texts_without_the_pattern_stay_whole(x + p4 + y, p2, v2);
    texts_without_the_pattern_stay_whole(x + p4 + y, p3, v3);
    lemma_filled_place(x, p4, y, v4);
    lemma_plain_whole(x, p1, v1);
    lemma_plain_whole(x, p2, v2);
    lemma_plain_whole(x, p3, v3);
    lemma_plain_whole(x, p4, v4);
}

proof fn lemma_plain_whole(x: Seq<char>, place: Seq<char>, value: Seq<char>)
    requires
        plain(x),
        place_name(place),
    ensures
        replaced(x, place, value) == x,
{
    if is_infix(place, x) {
        let j = choose|j: int| occurs_at(x, place, j);
        assert(x.subrange(j, j + place.len())[0] == x[j]);
    }
    texts_without_the_pattern_stay_whole(x, place, value);
}

/// Every proposal of an answer names the prompt and the answer that it came with; as many stay,
/// and so does everything else that the answer holds.
pub proof fn all_proposals_name_their_artifacts(
    members: Seq<(Seq<char>, JsonView)>,
    proposals: Seq<JsonView>,
    prompt_path: Seq<char>,
    output_path: Seq<char>,
    at: int,
    other: Seq<char>,
)
    requires
        lookup(members, "proposals"@) == Some(JsonView::Array(proposals)),
        0 <= at < proposals.len(),
    ensures
        ({
            let after = with_artifact_refs(JsonView::Object(members), prompt_path, output_path);
            &&& other != "proposals"@ ==> member(after, other) == lookup(members, other)
            &&& member(after, "proposals"@) matches Some(JsonView::Array(all))
            &&& all.len() == proposals.len()
            &&& proposals[at] !is Object ==> all[at] == proposals[at]
            &&& proposals[at] is Object && (member(proposals[at], "metadata"@) is None || member(
                proposals[at],
                "metadata"@,
            )->0 is Object) ==> {
                &&& member(all[at], "metadata"@) matches Some(metadata)
                &&& member(metadata, "rlm_prompt_ref"@) == Some(JsonView::Text(prompt_path))
                &&& member(metadata, "rlm_output_ref"@) == Some(JsonView::Text(output_path))
                &&& other != "metadata"@ ==> member(all[at], other) == member(
                    proposals[at],
                    other,
                )
            }
        }),
{
    let all = proposals.map_values(|p: JsonView| with_refs(p, prompt_path, output_path));
    put_members_are_found(members, "proposals"@, JsonView::Array(all), other);
    if proposals[at] is Object && (member(proposals[at], "metadata"@) is None || member(
        proposals[at],
        "metadata"@,
    )->0 is Object) {
        proposals_name_their_artifacts(
            proposals[at]->Object_0,
            prompt_path,
            output_path,
            other,
        );
    }
}

/// An answer without proposals stays as it is.
pub proof fn answers_without_proposals_stay(
    value: JsonView,
    prompt_path: Seq<char>,
    output_path: Seq<char>,
)
    requires
        member(value, "proposals"@) matches Some(proposals) ==> proposals !is Array,
    ensures
        with_artifact_refs(value, prompt_path, output_path) == value,
{
}

/// The proposals of an answer are those that it was decoded to, exactly where it has some.
pub proof fn answers_have_proposals(
    value: JsonView,
    decoded: Result<Seq<CandidateProposalView>, Seq<char>>,
)
    ensures
        proposals_of(value, decoded) is Ok <==> member(value, "proposals"@) is Some && decoded is Ok
            && decoded->Ok_0.len() > 0,
        proposals_of(value, decoded) matches Ok(proposals) ==> decoded == Ok::<
            Seq<CandidateProposalView>,
            Seq<char>,
        >(proposals),
        proposals_of(value, decoded) matches Err(error) ==> error is InvalidProposal,
        member(value, "proposals"@) is Some && decoded is Err ==> proposals_of(value, decoded)
            == Err::<Seq<CandidateProposalView>, HarnessOptErrorView>(
            HarnessOptErrorView::InvalidProposal(decoded->Err_0),
        ),
{
}

/// Whether an object says something under a name.
pub open spec fn says(object: JsonView, name: Seq<char>, value: JsonView) -> bool {
    object matches JsonView::Object(members) && members.contains((name, value))
}

proof fn lemma_says(object: JsonView, name: Seq<char>, value: JsonView, at: int)
    requires
        object is Object,
        0 <= at < object->Object_0.len(),
        object->Object_0[at] == (name, value),
    ensures
        says(object, name, value),
{
}

/// The evidence of a run says which example it was of, how it did, what was said of it and what it
/// went through.
pub proof fn evidence_says_how_a_run_did(run: ExampleRunView, score_text: Seq<char>)
    ensures
        ({
            let shown = rendered_run(run, score_text);
            &&& says(shown, "example_id"@, JsonView::Text(run.example.id))
            &&& says(shown, "split"@, JsonView::Text(split_name(run.example.split)))
            &&& run.result.feedback matches Some(text) ==> says(
                shown,
                "feedback"@,
                JsonView::Text(text),
            )
            &&& run.result.feedback is None ==> says(shown, "feedback"@, JsonView::Null)
            &&& run.result.passed matches Some(passed) ==> says(
                shown,
                "passed"@,
                JsonView::Bool(passed),
            )
            &&& !run.result.score.finite() ==> says(shown, "score"@, JsonView::Null)
            &&& run.result.diagnostics.contains_key("turn_outcome"@) ==> says(
                shown,
                "turn_outcome"@,
                run.result.diagnostics["turn_outcome"@],
            )
            &&& run.result.diagnostics.contains_key("tool_call_count"@) ==> says(
                shown,
                "tool_call_count"@,
                run.result.diagnostics["tool_call_count"@],
            )
            &&& run.result.diagnostics.contains_key("error_count"@) ==> says(
                shown,
                "error_count"@,
                run.result.diagnostics["error_count"@],
            )
            &&& run.result.diagnostics.contains_key("schema_failure"@) ==> says(
                shown,
                "schema_failure"@,
                run.result.diagnostics["schema_failure"@],
            )
            &&& run.result.diagnostics.contains_key("diary_behavior"@) ==> says(
                shown,
                "diary_behavior"@,
                run.result.diagnostics["diary_behavior"@],
            )
            &&& run.trace is None ==> says(shown, "trace"@, JsonView::Array(Seq::empty()))
            &&& run.trace matches Some(bundle) ==> says(
                shown,
                "trace"@,
                JsonView::Array(bundle.records.map_values(|r: TraceRecordView| rendered_record(r))),
            )
        }),
        ({
            let members = rendered_run(run, score_text)->Object_0;
            run.result.score.finite() ==> exists|i: int|
                0 <= i < members.len() && (#[trigger] members[i]).0 == "score"@ && (
                members[i].1 matches JsonView::Number(n) && n.double == run.result.score && n.text
                    == score_text)
        }),
{
    let shown = rendered_run(run, score_text);
    let m = shown->Object_0;
    lemma_says(shown, "diary_behavior"@, m[0].1, 0);
    lemma_says(shown, "error_count"@, m[1].1, 1);
    lemma_says(shown, "example_id"@, m[2].1, 2);
    lemma_says(shown, "feedback"@, m[3].1, 3);
    lemma_says(shown, "passed"@, m[4].1, 4);
    lemma_says(shown, "schema_failure"@, m[5].1, 5);
    lemma_says(shown, "score"@, m[6].1, 6);
    lemma_says(shown, "split"@, m[7].1, 7);
    lemma_says(shown, "tool_call_count"@, m[8].1, 8);
    lemma_says(shown, "trace"@, m[9].1, 9);
    lemma_says(shown, "turn_outcome"@, m[10].1, 10);
}

/// The evidence has every run, in order, and the feedback of those runs that have some, each under
/// the id of its example.
pub proof fn evidence_has_every_run(
    runs: Seq<ExampleRunView>,
    score_texts: Seq<Seq<char>>,
    at: int,
)
    requires
        0 <= at < runs.len(),
    ensures
        ({
            let shown = evidence(runs, score_texts);
            &&& shown is Object
            &&& shown->Object_0.len() == 2
            &&& shown->Object_0[0].0 == "examples"@
            &&& shown->Object_0[0].1 matches JsonView::Array(items)
            &&& items.len() == runs.len()
            &&& items[at] == rendered_run(runs[at], score_texts[at])
            &&& shown->Object_0[1].0 == "feedback_sections"@
            &&& joined(feedback_sections(runs), "\n"@).len() > 0 ==> shown->Object_0[1].1
                == JsonView::Text(joined(feedback_sections(runs), "\n"@))
        }),
        feedback_sections(runs) == runs.filter(
            |run: ExampleRunView| run.result.feedback is Some,
        ).map_values(
            |run: ExampleRunView|
                "--- Example "@ + run.example.id + " ---\n"@ + run.result.feedback->0 + "\n"@,
        ),
{
    lemma_sections(runs);
}

proof fn lemma_sections(runs: Seq<ExampleRunView>)
    ensures
        feedback_sections(runs) == runs.filter(
            |run: ExampleRunView| run.result.feedback is Some,
        ).map_values(
            |run: ExampleRunView|
                "--- Example "@ + run.example.id + " ---\n"@ + run.result.feedback->0 + "\n"@,
        ),
    decreases runs.len(),
{
    reveal(Seq::filter);
    let some = |run: ExampleRunView| run.result.feedback is Some;
    let show = |run: ExampleRunView|
        "--- Example "@ + run.example.id + " ---\n"@ + run.result.feedback->0 + "\n"@;
    if runs.len() > 0 {
        lemma_sections(runs.drop_last());
    }
    assert(feedback_sections(runs) =~= runs.filter(some).map_values(show));
}

/// A proposer is asked for the parent of the request, with its components and the evidence of the
/// runs on the batch.
pub proof fn proposers_are_asked_for_the_parent(
    request: StrategyRequestView,
    score_texts: Seq<Seq<char>>,
)
    ensures
        ({
            let asked = reflective(request, score_texts);
            &&& asked.run_id == request.run_id
            &&& asked.experiment_id == request.experiment_id
            &&& asked.generation == request.generation
            &&& asked.artifact_dir == request.artifact_dir
            &&& asked.parent_candidate_id == request.evidence.parent.id
            &&& asked.mutable_components == request.evidence.parent.mutable_components
            &&& asked.evidence == evidence(request.evidence.evaluated_examples, score_texts)
        }),
{
}

/// An answer has to have proposals, each for a parent and with patches, and nothing else.
pub proof fn answers_are_held_to_a_schema()
    ensures
        says(output_schema(), "type"@, JsonView::Text("object"@)),
        says(output_schema(), "additionalProperties"@, JsonView::Bool(false)),
        says(
            output_schema(),
            "required"@,
            JsonView::Array(seq![JsonView::Text("proposals"@)]),
        ),
{
    let schema = output_schema();
    let m = schema->Object_0;
    lemma_says(schema, "additionalProperties"@, m[0].1, 0);
    lemma_says(schema, "required"@, m[2].1, 2);
    lemma_says(schema, "type"@, m[3].1, 3);
    assert(m[2].1->Array_0 =~= seq![JsonView::Text("proposals"@)]);
}

/// The evidence of a trace record says when it was made, in which context and what it reports.
pub proof fn evidence_says_what_a_record_reports(record: TraceRecordView)
    ensures
        ({
            let shown = rendered_record(record);
            let context = shown->Object_0[0].1;
            &&& says(shown, "timestamp"@, record.timestamp)
            &&& says(shown, "event"@, JsonView::Text(event_name(record.event)))
            &&& says(shown, "context"@, context)
            &&& record.context.candidate_id matches Some(id) ==> says(
                context,
                "candidate_id"@,
                JsonView::Text(id),
            )
            &&& record.context.candidate_parent_id matches Some(id) ==> says(
                context,
                "candidate_parent_id"@,
                JsonView::Text(id),
            )
            &&& record.context.example_id matches Some(id) ==> says(
                context,
                "example_id"@,
                JsonView::Text(id),
            )
            &&& record.context.experiment_id matches Some(id) ==> says(
                context,
                "experiment_id"@,
                JsonView::Text(id),
            )
            &&& record.context.run_id matches Some(id) ==> says(
                context,
                "run_id"@,
                JsonView::Text(id),
            )
            &&& record.context.split matches Some(name) ==> says(
                context,
                "split"@,
                JsonView::Text(name),
            )
            &&& record.context.example_id is None ==> says(context, "example_id"@, JsonView::Null)
        }),
{
    let shown = rendered_record(record);
    let m = shown->Object_0;
    let context = m[0].1;
    let c = context->Object_0;
    lemma_says(shown, "context"@, context, 0);
    lemma_says(shown, "event"@, m[1].1, 1);
    lemma_says(shown, "timestamp"@, m[2].1, 2);
    lemma_says(context, "candidate_id"@, c[0].1, 0);
    lemma_says(context, "candidate_parent_id"@, c[1].1, 1);
    lemma_says(context, "example_id"@, c[2].1, 2);
    lemma_says(context, "experiment_id"@, c[3].1, 3);
    lemma_says(context, "run_id"@, c[4].1, 4);
    lemma_says(context, "split"@, c[5].1, 5);
}

/// Events of a named kind are told apart by their names, and those of another kind have a name in
/// common.
pub proof fn events_are_told_apart_by_their_names(a: TraceEventView, b: TraceEventView)
    requires
        event_name(a) == event_name(b),
    ensures
        a is TurnStarted <==> b is TurnStarted,
        a is TurnCompleted <==> b is TurnCompleted,
        a is ToolCallStarted <==> b is ToolCallStarted,
        a is ToolCallCompleted <==> b is ToolCallCompleted,
        a is LlmCallFailed <==> b is LlmCallFailed,
        a is LlmCallStarted <==> b is LlmCallStarted,
        a is LlmCallCompleted <==> b is LlmCallCompleted,
        a is PromptBuilt <==> b is PromptBuilt,
{
    reveal_strlit("turn_started");
    reveal_strlit("turn_completed");
    reveal_strlit("tool_call_started");
    reveal_strlit("tool_call_completed");
    reveal_strlit("llm_call_failed");
    reveal_strlit("llm_call_started");
    reveal_strlit("llm_call_completed");
    reveal_strlit("prompt_built");
    reveal_strlit("other");
    assert("turn_started"@.len() == 12 && "turn_completed"@.len() == 14);
    assert("tool_call_started"@.len() == 17 && "tool_call_completed"@.len() == 19);
    assert("llm_call_failed"@.len() == 15 && "llm_call_started"@.len() == 16);
    assert("llm_call_completed"@.len() == 18 && "prompt_built"@.len() == 12 && "other"@.len() == 5);
    assert("turn_started"@[0] == 't' && "prompt_built"@[0] == 'p');
}

/// The document of an answer has the prose, the errors and the value.
pub proof fn answers_are_kept_whole(value: JsonView, errors: JsonView, prose: Seq<char>)
    ensures
        ({
            let document = answer_document(value, errors, prose);
            &&& says(document, "assistant_prose"@, JsonView::Text(prose))
            &&& says(document, "errors"@, errors)
            &&& says(document, "value"@, value)
        }),
{
    let document = answer_document(value, errors, prose);
    lemma_says(document, "assistant_prose"@, JsonView::Text(prose), 0);
    lemma_says(document, "errors"@, errors, 1);
    lemma_says(document, "value"@, value, 2);
}

/// The providers whose models are given have those, and the others that are known their own; what
/// a kind of provider is asked does not depend on the models of others.
pub proof fn providers_have_their_models(
    kind: Seq<char>,
    anthropic: Seq<char>,
    compatible: Seq<char>,
    other: Seq<char>,
)
    ensures
        provider_model("anthropic"@, anthropic, compatible) == anthropic,
        provider_model("openai-compatible"@, anthropic, compatible) == compatible,
        provider_model("openai"@, anthropic, compatible) == "gpt-5.4"@,
        provider_model("codex"@, anthropic, compatible) == "gpt-5.5"@,
        provider_model("google_oauth"@, anthropic, compatible) == "gemini-3.1-pro-preview"@,
        kind != "anthropic"@ && kind != "openai"@ && kind != "openai-compatible"@ && kind
            != "codex"@ && kind != "google_oauth"@ ==> provider_model(kind, anthropic, compatible)
            == "mock-model"@,
        kind != "anthropic"@ ==> provider_model(kind, anthropic, compatible) == provider_model(
            kind,
            other,
            compatible,
        ),
        kind != "openai-compatible"@ ==> provider_model(kind, anthropic, compatible)
            == provider_model(kind, anthropic, other),
{
    reveal_strlit("anthropic");
    reveal_strlit("openai");
    reveal_strlit("openai-compatible");
    reveal_strlit("codex");
    reveal_strlit("google_oauth");
    assert("anthropic"@.len() == 9 && "openai"@.len() == 6 && "openai-compatible"@.len() == 17);
    assert("codex"@.len() == 5 && "google_oauth"@.len() == 12);
}

/// Whether a schema is one of objects with properties, of which some are required, and nothing
/// else.
pub open spec fn object_schema(
    schema: JsonView,
    properties: JsonView,
    required: Seq<JsonView>,
) -> bool {
    &&& says(schema, "type"@, JsonView::Text("object"@))
    &&& says(schema, "additionalProperties"@, JsonView::Bool(false))
    &&& says(schema, "properties"@, properties)
    &&& says(schema, "required"@, JsonView::Array(required))
}

proof fn lemma_object_schema(properties: Seq<(Seq<char>, JsonView)>, required: Seq<Seq<char>>)
    ensures
        object_schema(
            exact_object(properties, required),
            JsonView::Object(properties),
            required.map_values(|t: Seq<char>| JsonView::Text(t)),
        ),
{
    let schema = exact_object(properties, required);
    let m = schema->Object_0;
    lemma_says(schema, "additionalProperties"@, m[0].1, 0);
    lemma_says(schema, "properties"@, m[1].1, 1);
    lemma_says(schema, "required"@, m[2].1, 2);
    lemma_says(schema, "type"@, m[3].1, 3);
}

/// Whether a schema is one of arrays with at least one item of a schema.
pub open spec fn array_schema(schema: JsonView, items: JsonView) -> bool {
    &&& says(schema, "type"@, JsonView::Text("array"@))
    &&& says(schema, "items"@, items)
    &&& says(schema, "minItems"@, unsigned_number(1))
}

proof fn lemma_array_schema(items: JsonView)
    ensures
        array_schema(filled_array(items), items),
{
    let schema = filled_array(items);
    let m = schema->Object_0;
    lemma_says(schema, "items"@, m[0].1, 0);
    lemma_says(schema, "minItems"@, m[1].1, 1);
    lemma_says(schema, "type"@, m[2].1, 2);
}

/// An answer is asked to have proposals, at least one; a proposal its parent and patches, at least
/// one; and a patch the component, and the value that replaces its value.
pub proof fn the_schema_asks_for_patches(
    proposals: Seq<(Seq<char>, JsonView)>,
    patches: Seq<(Seq<char>, JsonView)>,
    parts: Seq<(Seq<char>, JsonView)>,
)
    requires
        proposals == seq![("proposals"@, filled_array(proposal_schema()))],
        patches == seq![
            ("metadata"@, typed("object"@)),
            ("parent_candidate_id"@, typed("string"@)),
            ("patches"@, filled_array(patch_schema())),
            ("rationale"@, typed("string"@)),
        ],
        parts == seq![
            ("component_id"@, typed("string"@)),
            ("kind"@, constant("replace_value"@)),
            ("value"@, value_schema()),
        ],
    ensures
        object_schema(
            output_schema(),
            JsonView::Object(proposals),
            seq![JsonView::Text("proposals"@)],
        ),
        array_schema(filled_array(proposal_schema()), proposal_schema()),
        object_schema(
            proposal_schema(),
            JsonView::Object(patches),
            seq![JsonView::Text("parent_candidate_id"@), JsonView::Text("patches"@)],
        ),
        array_schema(filled_array(patch_schema()), patch_schema()),
        object_schema(
            patch_schema(),
            JsonView::Object(parts),
            seq![
                JsonView::Text("kind"@),
                JsonView::Text("component_id"@),
                JsonView::Text("value"@),
            ],
        ),
        says(typed("string"@), "type"@, JsonView::Text("string"@)),
        says(constant("replace_value"@), "const"@, JsonView::Text("replace_value"@)),
{
    let text = |t: Seq<char>| JsonView::Text(t);
    lemma_object_schema(proposals, seq!["proposals"@]);
    assert(seq!["proposals"@].map_values(text) =~= seq![JsonView::Text("proposals"@)]);
    lemma_array_schema(proposal_schema());
    lemma_object_schema(patches, seq!["parent_candidate_id"@, "patches"@]);
    assert(seq!["parent_candidate_id"@, "patches"@].map_values(text) =~= seq![
        JsonView::Text("parent_candidate_id"@),
        JsonView::Text("patches"@),
    ]);
    lemma_array_schema(patch_schema());
    lemma_object_schema(parts, seq!["kind"@, "component_id"@, "value"@]);
    assert(seq!["kind"@, "component_id"@, "value"@].map_values(text) =~= seq![
        JsonView::Text("kind"@),
        JsonView::Text("component_id"@),
        JsonView::Text("value"@),
    ]);
    lemma_says(typed("string"@), "type"@, JsonView::Text("string"@), 0);
    lemma_says(constant("replace_value"@), "const"@, JsonView::Text("replace_value"@), 0);
}

/// A value is asked to be of one of four kinds, each with its own member.
pub proof fn the_schema_asks_for_one_of_four_kinds()
    ensures
        value_schema() matches JsonView::Object(members) && members.len() == 1 && members[0].0
            == "oneOf"@ && (members[0].1 matches JsonView::Array(kinds) && kinds.len() == 4
            && object_schema(
            kinds[0],
            JsonView::Object(
                seq![("kind"@, constant("text"@)), ("text"@, typed("string"@))],
            ),
            seq![JsonView::Text("kind"@), JsonView::Text("text"@)],
        ) && object_schema(
            kinds[1],
            JsonView::Object(
                seq![
                    ("kind"@, constant("json"@)),
                    ("value"@, JsonView::Object(Seq::empty())),
                ],
            ),
            seq![JsonView::Text("kind"@), JsonView::Text("value"@)],
        ) && object_schema(
            kinds[2],
            JsonView::Object(
                seq![
                    ("kind"@, constant("prompt_template"@)),
                    ("template"@, typed("object"@)),
                ],
            ),
            seq![JsonView::Text("kind"@), JsonView::Text("template"@)],
        ) && object_schema(
            kinds[3],
            JsonView::Object(
                seq![
                    ("contribution"@, typed("object"@)),
                    ("kind"@, constant("prompt_contribution"@)),
                ],
            ),
            seq![JsonView::Text("kind"@), JsonView::Text("contribution"@)],
        )),
{
    let text = |t: Seq<char>| JsonView::Text(t);
    lemma_object_schema(
        seq![("kind"@, constant("text"@)), ("text"@, typed("string"@))],
        seq!["kind"@, "text"@],
    );
    assert(seq!["kind"@, "text"@].map_values(text) =~= seq![
        JsonView::Text("kind"@),
        JsonView::Text("text"@),
    ]);
    lemma_object_schema(
        seq![("kind"@, constant("json"@)), ("value"@, JsonView::Object(Seq::empty()))],
        seq!["kind"@, "value"@],
    );
    assert(seq!["kind"@, "value"@].map_values(text) =~= seq![
        JsonView::Text("kind"@),
        JsonView::Text("value"@),
    ]);
    lemma_object_schema(
        seq![("kind"@, constant("prompt_template"@)), ("template"@, typed("object"@))],
        seq!["kind"@, "template"@],
    );
    assert(seq!["kind"@, "template"@].map_values(text) =~= seq![
        JsonView::Text("kind"@),
        JsonView::Text("template"@),
    ]);
    lemma_object_schema(
        seq![("contribution"@, typed("object"@)), ("kind"@, constant("prompt_contribution"@))],
        seq!["kind"@, "contribution"@],
    );
    assert(seq!["kind"@, "contribution"@].map_values(text) =~= seq![
        JsonView::Text("kind"@),
        JsonView::Text("contribution"@),
    ]);
}

} // verus!
