//! Reflective proposals: what a model is told of a parent, and what is made of its answer.

use vstd::prelude::*;
use vstd::string::*;

use crate::engine::concat3;
use crate::json::{
    add_member, double_number, json_texts, member, member_views, optional_text, or_null, text_array,
    unsigned_number, Json, JsonView,
};
use crate::model::{
    entry, split_name, CandidateProposal, CandidateProposalView, EvaluationResultView, ExampleRun,
    ExampleRunView, HarnessOptError, HarnessOptErrorView, MutableComponent, MutableComponentView,
    StrategyRequest, StrategyRequestView, TraceBundle, TraceBundleView, TraceEvent,
    TraceEventView, TraceRecord, TraceRecordView,
};
use crate::string_map::StringMap;
use crate::text::{join, joined};
use crate::views::{lemma_take_next, lemma_views_push, opt_view, views, Duplicate};

verus! {

/// A strategy that asks a proposer to reflect on the evidence.
#[derive(Clone, Debug, Default)]
pub struct ReflectiveGepaStrategy<P> {
    pub proposer: P,
}

impl<P> ReflectiveGepaStrategy<P> {
    /// The strategy that asks the given proposer.
    pub fn new(proposer: P) -> (r: Self)
        ensures
            r.proposer == proposer,
    {
        ReflectiveGepaStrategy { proposer }
    }
}

/// A request for a reflective proposal.
#[derive(Clone, Debug, PartialEq)]
pub struct ReflectiveProposalRequest {
    pub run_id: String,
    pub experiment_id: String,
    pub generation: usize,
    pub artifact_dir: String,
    pub parent_candidate_id: String,
    pub mutable_components: StringMap<MutableComponent>,
    pub evidence: Json,
    pub output_schema: Json,
}

/// The view of a [`ReflectiveProposalRequest`].
#[verifier::ext_equal]
pub struct ReflectiveProposalRequestView {
    pub run_id: Seq<char>,
    pub experiment_id: Seq<char>,
    pub generation: usize,
    pub artifact_dir: Seq<char>,
    pub parent_candidate_id: Seq<char>,
    pub mutable_components: Map<Seq<char>, MutableComponentView>,
    pub evidence: JsonView,
    pub output_schema: JsonView,
}

impl View for ReflectiveProposalRequest {
    type V = ReflectiveProposalRequestView;

    open spec fn view(&self) -> ReflectiveProposalRequestView {
        ReflectiveProposalRequestView {
            run_id: self.run_id@,
            experiment_id: self.experiment_id@,
            generation: self.generation,
            artifact_dir: self.artifact_dir@,
            parent_candidate_id: self.parent_candidate_id@,
            mutable_components: self.mutable_components@,
            evidence: self.evidence@,
            output_schema: self.output_schema@,
        }
    }
}

/// A schema of texts, objects or whatever else `name` says.
pub open spec fn typed(name: Seq<char>) -> JsonView {
    JsonView::Object(seq![("type"@, JsonView::Text(name))])
}

/// A schema of one text only.
pub open spec fn constant(text: Seq<char>) -> JsonView {
    JsonView::Object(seq![("const"@, JsonView::Text(text))])
}

/// A schema of objects that have the given properties and no others.
pub open spec fn exact_object(
    properties: Seq<(Seq<char>, JsonView)>,
    required: Seq<Seq<char>>,
) -> JsonView {
    JsonView::Object(
        seq![
            ("additionalProperties"@, JsonView::Bool(false)),
            ("properties"@, JsonView::Object(properties)),
            ("required"@, text_array(required)),
            ("type"@, JsonView::Text("object"@)),
        ],
    )
}

/// A schema of arrays that are not empty.
pub open spec fn filled_array(items: JsonView) -> JsonView {
    JsonView::Object(
        seq![
            ("items"@, items),
            ("minItems"@, unsigned_number(1)),
            ("type"@, JsonView::Text("array"@)),
        ],
    )
}

/// The schema of the value of a component.
pub open spec fn value_schema() -> JsonView {
    JsonView::Object(
        seq![
            (
                "oneOf"@,
                JsonView::Array(
                    seq![
                        exact_object(
                            seq![("kind"@, constant("text"@)), ("text"@, typed("string"@))],
                            seq!["kind"@, "text"@],
                        ),
                        exact_object(
                            seq![
                                ("kind"@, constant("json"@)),
                                ("value"@, JsonView::Object(Seq::empty())),
                            ],
                            seq!["kind"@, "value"@],
                        ),
                        exact_object(
                            seq![
                                ("kind"@, constant("prompt_template"@)),
                                ("template"@, typed("object"@)),
                            ],
                            seq!["kind"@, "template"@],
                        ),
                        exact_object(
                            seq![
                                ("contribution"@, typed("object"@)),
                                ("kind"@, constant("prompt_contribution"@)),
                            ],
                            seq!["kind"@, "contribution"@],
                        ),
                    ],
                ),
            ),
        ],
    )
}

/// The schema of a patch.
pub open spec fn patch_schema() -> JsonView {
    exact_object(
        seq![
            ("component_id"@, typed("string"@)),
            ("kind"@, constant("replace_value"@)),
            ("value"@, value_schema()),
        ],
        seq!["kind"@, "component_id"@, "value"@],
    )
}

/// The schema of a proposal.
pub open spec fn proposal_schema() -> JsonView {
    exact_object(
        seq![
            ("metadata"@, typed("object"@)),
            ("parent_candidate_id"@, typed("string"@)),
            ("patches"@, filled_array(patch_schema())),
            ("rationale"@, typed("string"@)),
        ],
        seq!["parent_candidate_id"@, "patches"@],
    )
}

/// The schema of what a proposer answers.
pub open spec fn output_schema() -> JsonView {
    exact_object(
        seq![("proposals"@, filled_array(proposal_schema()))],
        seq!["proposals"@],
    )
}

fn one_member(key: &str, value: Json) -> (r: Vec<(String, Json)>)
    ensures
        member_views(r@) == seq![(key@, value@)],
{
    let mut r: Vec<(String, Json)> = Vec::new();
    assert(member_views(r@) =~= Seq::empty());
    add_member(&mut r, key, value);
    r
}

fn two_members(a: &str, x: Json, b: &str, y: Json) -> (r: Vec<(String, Json)>)
    ensures
        member_views(r@) == seq![(a@, x@), (b@, y@)],
{
    let mut r: Vec<(String, Json)> = one_member(a, x);
    add_member(&mut r, b, y);
    r
}

fn schema_typed(name: &str) -> (r: Json)
    ensures
        r@ == typed(name@),
{
    Json::object(one_member("type", Json::text(name)))
}

fn schema_constant(text: &str) -> (r: Json)
    ensures
        r@ == constant(text@),
{
    Json::object(one_member("const", Json::text(text)))
}

fn one_text(a: &str) -> (r: Vec<String>)
    ensures
        views(r@) == seq![a@],
{
    let mut r: Vec<String> = Vec::new();
    r.push(a.to_string());
    assert(views(r@) =~= seq![a@]);
    r
}

fn two_texts(a: &str, b: &str) -> (r: Vec<String>)
    ensures
        views(r@) == seq![a@, b@],
{
    let mut r: Vec<String> = Vec::new();
    r.push(a.to_string());
    r.push(b.to_string());
    assert(views(r@) =~= seq![a@, b@]);
    r
}

fn schema_object(properties: Vec<(String, Json)>, required: &Vec<String>) -> (r: Json)
    ensures
        r@ == exact_object(member_views(properties@), views(required@)),
{
    let mut members: Vec<(String, Json)> = one_member("additionalProperties", Json::Bool(false));
    add_member(&mut members, "properties", Json::object(properties));
    add_member(&mut members, "required", json_texts(required));
    add_member(&mut members, "type", Json::text("object"));
    assert(member_views(members@) =~= exact_object(
        member_views(properties@),
        views(required@),
    )->Object_0);
    Json::object(members)
}

fn schema_array(items: Json) -> (r: Json)
    ensures
        r@ == filled_array(items@),
{
    let ghost schema = filled_array(items@);
    let mut members: Vec<(String, Json)> = one_member("items", items);
    add_member(&mut members, "minItems", Json::unsigned(1));
    add_member(&mut members, "type", Json::text("array"));
    assert(member_views(members@) =~= schema->Object_0);
    Json::object(members)
}

fn schema_of_value() -> (r: Json)
    ensures
        r@ == value_schema(),
{
    let text: Json = schema_object(
        two_members("kind", schema_constant("text"), "text", schema_typed("string")),
        &two_texts("kind", "text"),
    );
    let none: Vec<(String, Json)> = Vec::new();
    assert(member_views(none@) =~= Seq::empty());
    let json: Json = schema_object(
        two_members("kind", schema_constant("json"), "value", Json::object(none)),
        &two_texts("kind", "value"),
    );
    let template: Json = schema_object(
        two_members(
            "kind",
            schema_constant("prompt_template"),
            "template",
            schema_typed("object"),
        ),
        &two_texts("kind", "template"),
    );
    let contribution: Json = schema_object(
        two_members(
            "contribution",
            schema_typed("object"),
            "kind",
            schema_constant("prompt_contribution"),
        ),
        &two_texts("kind", "contribution"),
    );
    let ghost wanted = seq![text@, json@, template@, contribution@];
    let mut kinds: Vec<Json> = Vec::new();
    kinds.push(text);
    kinds.push(json);
    kinds.push(template);
    kinds.push(contribution);
    assert(views(kinds@) =~= wanted);
    Json::object(one_member("oneOf", Json::array(kinds)))
}

fn schema_of_patch() -> (r: Json)
    ensures
        r@ == patch_schema(),
{
    let mut properties: Vec<(String, Json)> = two_members(
        "component_id",
        schema_typed("string"),
        "kind",
        schema_constant("replace_value"),
    );
    add_member(&mut properties, "value", schema_of_value());
    let mut required: Vec<String> = two_texts("kind", "component_id");
    let last: String = "value".to_string();
    proof {
        lemma_views_push(required@, last);
    }
    required.push(last);
    assert(views(required@) =~= seq!["kind"@, "component_id"@, "value"@]);
    assert(member_views(properties@) =~= seq![
        ("component_id"@, typed("string"@)),
        ("kind"@, constant("replace_value"@)),
        ("value"@, value_schema()),
    ]);
    schema_object(properties, &required)
}

fn schema_of_proposal() -> (r: Json)
    ensures
        r@ == proposal_schema(),
{
    let mut properties: Vec<(String, Json)> = two_members(
        "metadata",
        schema_typed("object"),
        "parent_candidate_id",
        schema_typed("string"),
    );
    add_member(&mut properties, "patches", schema_array(schema_of_patch()));
    add_member(&mut properties, "rationale", schema_typed("string"));
    assert(member_views(properties@) =~= seq![
        ("metadata"@, typed("object"@)),
        ("parent_candidate_id"@, typed("string"@)),
        ("patches"@, filled_array(patch_schema())),
        ("rationale"@, typed("string"@)),
    ]);
    schema_object(properties, &two_texts("parent_candidate_id", "patches"))
}

/// The schema of what a proposer answers.
pub fn proposal_output_schema() -> (r: Json)
    ensures
        r@ == output_schema(),
{
    schema_object(
        one_member("proposals", schema_array(schema_of_proposal())),
        &one_text("proposals"),
    )
}

/// The proposals of an answer. `decoded` is what the member `proposals` was decoded to, or the
/// message of the error.
pub open spec fn proposals_of(
    value: JsonView,
    decoded: Result<Seq<CandidateProposalView>, Seq<char>>,
) -> Result<Seq<CandidateProposalView>, HarnessOptErrorView> {
    if member(value, "proposals"@) is None {
        Err(HarnessOptErrorView::InvalidProposal("missing proposals"@))
    } else {
        match decoded {
            Err(text) => Err(HarnessOptErrorView::InvalidProposal(text)),
            Ok(proposals) => if proposals.len() == 0 {
                Err(HarnessOptErrorView::InvalidProposal("proposal list is empty"@))
            } else {
                Ok(proposals)
            },
        }
    }
}

/// The view of a list, or of an error.
pub open spec fn list_outcome<T: View>(r: Result<Vec<T>, HarnessOptError>) -> Result<
    Seq<T::V>,
    HarnessOptErrorView,
> {
    match r {
        Ok(items) => Ok(views(items@)),
        Err(error) => Err(error@),
    }
}

/// The view of a list, or of a message.
pub open spec fn list_or_text<T: View>(r: Result<Vec<T>, String>) -> Result<
    Seq<T::V>,
    Seq<char>,
> {
    match r {
        Ok(items) => Ok(views(items@)),
        Err(text) => Err(text@),
    }
}

/// Takes the proposals of an answer, of which there has to be one. `decoded` is what the member
/// `proposals` was decoded to, or the message of the error.
pub fn parse_candidate_proposals(
    value: &Json,
    decoded: Result<Vec<CandidateProposal>, String>,
) -> (r: Result<Vec<CandidateProposal>, HarnessOptError>)
    ensures
        list_outcome(r) == proposals_of(value@, list_or_text(decoded)),
{
    if value.get("proposals").is_none() {
        return Err(HarnessOptError::InvalidProposal("missing proposals".to_string()));
    }
    match decoded {
        Err(text) => Err(HarnessOptError::InvalidProposal(text)),
        Ok(proposals) => {
            assert(views(proposals@).len() == proposals@.len());
            if proposals.len() == 0 {
                Err(HarnessOptError::InvalidProposal("proposal list is empty".to_string()))
            } else {
                Ok(proposals)
            }
        },
    }
}

/// The name of an event.
pub open spec fn event_name(event: TraceEventView) -> Seq<char> {
    match event {
        TraceEventView::TurnStarted => "turn_started"@,
        TraceEventView::TurnCompleted => "turn_completed"@,
        TraceEventView::ToolCallStarted => "tool_call_started"@,
        TraceEventView::ToolCallCompleted => "tool_call_completed"@,
        TraceEventView::LlmCallFailed => "llm_call_failed"@,
        TraceEventView::LlmCallStarted => "llm_call_started"@,
        TraceEventView::LlmCallCompleted { .. } => "llm_call_completed"@,
        TraceEventView::PromptBuilt => "prompt_built"@,
        _ => "other"@,
    }
}

/// A trace record as evidence.
pub open spec fn rendered_record(record: TraceRecordView) -> JsonView {
    let c = record.context;
    JsonView::Object(
        seq![
            (
                "context"@,
                JsonView::Object(
                    seq![
                        ("candidate_id"@, optional_text(c.candidate_id)),
                        ("candidate_parent_id"@, optional_text(c.candidate_parent_id)),
                        ("example_id"@, optional_text(c.example_id)),
                        ("experiment_id"@, optional_text(c.experiment_id)),
                        ("run_id"@, optional_text(c.run_id)),
                        ("split"@, optional_text(c.split)),
                    ],
                ),
            ),
            ("event"@, JsonView::Text(event_name(record.event))),
            ("timestamp"@, record.timestamp),
        ],
    )
}

/// The records of a trace as evidence.
pub open spec fn rendered_trace(trace: Option<TraceBundleView>) -> JsonView {
    match trace {
        Some(bundle) => JsonView::Array(
            bundle.records.map_values(|r: TraceRecordView| rendered_record(r)),
        ),
        None => JsonView::Array(Seq::empty()),
    }
}

/// What the diagnostics of a result hold under a name, or null.
pub open spec fn diagnostic(result: EvaluationResultView, name: Seq<char>) -> JsonView {
    or_null(entry(result.diagnostics, name))
}

/// A run as evidence. `score_text` is how its score is written.
pub open spec fn rendered_run(run: ExampleRunView, score_text: Seq<char>) -> JsonView {
    JsonView::Object(
        seq![
            ("diary_behavior"@, diagnostic(run.result, "diary_behavior"@)),
            ("error_count"@, diagnostic(run.result, "error_count"@)),
            ("example_id"@, JsonView::Text(run.example.id)),
            ("feedback"@, optional_text(run.result.feedback)),
            (
                "passed"@,
                match run.result.passed {
                    Some(passed) => JsonView::Bool(passed),
                    None => JsonView::Null,
                },
            ),
            ("schema_failure"@, diagnostic(run.result, "schema_failure"@)),
            ("score"@, double_number(run.result.score, score_text)),
            ("split"@, JsonView::Text(split_name(run.example.split))),
            ("tool_call_count"@, diagnostic(run.result, "tool_call_count"@)),
            ("trace"@, rendered_trace(run.trace)),
            ("turn_outcome"@, diagnostic(run.result, "turn_outcome"@)),
        ],
    )
}

/// The sections with the feedback of those runs that have some.
pub open spec fn feedback_sections(runs: Seq<ExampleRunView>) -> Seq<Seq<char>>
    decreases runs.len(),
{
    if runs.len() == 0 {
        Seq::empty()
    } else {
        let before = feedback_sections(runs.drop_last());
        match runs.last().result.feedback {
            Some(feedback) => before.push(
                "--- Example "@ + runs.last().example.id + " ---\n"@ + feedback + "\n"@,
            ),
            None => before,
        }
    }
}

/// The evidence that a proposer is given: every run, and the feedback as text.
pub open spec fn evidence(runs: Seq<ExampleRunView>, score_texts: Seq<Seq<char>>) -> JsonView {
    let sections = joined(feedback_sections(runs), "\n"@);
    JsonView::Object(
        seq![
            (
                "examples"@,
                JsonView::Array(
                    Seq::new(runs.len(), |i: int| rendered_run(runs[i], score_texts[i])),
                ),
            ),
            (
                "feedback_sections"@,
                if sections.len() == 0 {
                    JsonView::Null
                } else {
                    JsonView::Text(sections)
                },
            ),
        ],
    )
}

/// Renders a trace record as evidence.
pub fn render_trace_record(record: &TraceRecord) -> (r: Json)
    ensures
        r@ == rendered_record(record@),
{
    let event: &str = match &record.event {
        TraceEvent::TurnStarted => "turn_started",
        TraceEvent::TurnCompleted => "turn_completed",
        TraceEvent::ToolCallStarted => "tool_call_started",
        TraceEvent::ToolCallCompleted => "tool_call_completed",
        TraceEvent::LlmCallFailed => "llm_call_failed",
        TraceEvent::LlmCallStarted => "llm_call_started",
        TraceEvent::LlmCallCompleted { .. } => "llm_call_completed",
        TraceEvent::PromptBuilt => "prompt_built",
        _ => "other",
    };
    let mut context: Vec<(String, Json)> = two_members(
        "candidate_id",
        Json::optional(&record.context.candidate_id),
        "candidate_parent_id",
        Json::optional(&record.context.candidate_parent_id),
    );
    add_member(&mut context, "example_id", Json::optional(&record.context.example_id));
    add_member(&mut context, "experiment_id", Json::optional(&record.context.experiment_id));
    add_member(&mut context, "run_id", Json::optional(&record.context.run_id));
    add_member(&mut context, "split", Json::optional(&record.context.split));
    let ghost wanted = rendered_record(record@)->Object_0;
    assert(member_views(context@) =~= wanted[0].1->Object_0);
    let mut members: Vec<(String, Json)> = two_members(
        "context",
        Json::object(context),
        "event",
        Json::text(event),
    );
    add_member(&mut members, "timestamp", record.timestamp.duplicate());
    assert(member_views(members@) =~= wanted);
    Json::object(members)
}

fn render_trace(trace: &Option<TraceBundle>) -> (r: Json)
    ensures
        r@ == rendered_trace(opt_view(*trace)),
{
    let mut items: Vec<Json> = Vec::new();
    match trace {
        Some(bundle) => {
            let ghost whole = views(bundle.records@).map_values(
                |r: TraceRecordView| rendered_record(r),
            );
            let mut i: usize = 0;
            assert(views(items@) =~= whole.take(0));
            while i < bundle.records.len()
                invariant
                    i <= bundle.records@.len(),
                    whole == views(bundle.records@).map_values(
                        |r: TraceRecordView| rendered_record(r),
                    ),
                    views(items@) == whole.take(i as int),
                decreases bundle.records@.len() - i,
            {
                let item: Json = render_trace_record(&bundle.records[i]);
                proof {
                    lemma_views_push(items@, item);
                    lemma_take_next(whole, i as int);
                }
                items.push(item);
                i = i + 1;
            }
            assert(whole.take(i as int) =~= whole);
        },
        None => {
            assert(views(items@) =~= Seq::empty());
        },
    }
    Json::array(items)
}

fn find_diagnostic(run: &ExampleRun, name: &str) -> (r: Json)
    ensures
        r@ == diagnostic(run@.result, name@),
{
    match run.result.diagnostics.get(name) {
        Some(value) => value.duplicate(),
        None => Json::Null,
    }
}

fn render_run(run: &ExampleRun, score_text: &str) -> (r: Json)
    ensures
        r@ == rendered_run(run@, score_text@),
{
    let mut members: Vec<(String, Json)> = two_members(
        "diary_behavior",
        find_diagnostic(run, "diary_behavior"),
        "error_count",
        find_diagnostic(run, "error_count"),
    );
    add_member(&mut members, "example_id", Json::text(run.example.id.as_str()));
    add_member(&mut members, "feedback", Json::optional(&run.result.feedback));
    add_member(
        &mut members,
        "passed",
        match run.result.passed {
            Some(passed) => Json::Bool(passed),
            None => Json::Null,
        },
    );
    add_member(&mut members, "schema_failure", find_diagnostic(run, "schema_failure"));
    add_member(&mut members, "score", Json::double(run.result.score, score_text));
    add_member(&mut members, "split", Json::text(run.example.split.as_str()));
    add_member(&mut members, "tool_call_count", find_diagnostic(run, "tool_call_count"));
    add_member(&mut members, "trace", render_trace(&run.trace));
    add_member(&mut members, "turn_outcome", find_diagnostic(run, "turn_outcome"));
    assert(member_views(members@) =~= rendered_run(run@, score_text@)->Object_0);
    Json::object(members)
}

fn render_feedback(runs: &[ExampleRun]) -> (r: Vec<String>)
    ensures
        views(r@) == feedback_sections(views(runs@)),
{
    let ghost all = views(runs@);
    let mut r: Vec<String> = Vec::new();
    let mut i: usize = 0;
    assert(views(r@) =~= feedback_sections(all.take(0)));
    while i < runs.len()
        invariant
            i <= runs@.len(),
            all == views(runs@),
            views(r@) == feedback_sections(all.take(i as int)),
        decreases runs@.len() - i,
    {
        assert(all.take(i + 1).drop_last() =~= all.take(i as int));
        assert(all.take(i + 1).last() == runs@[i as int]@);
        if let Some(feedback) = &runs[i].result.feedback {
            let mut section: String = concat3(
                "--- Example ",
                runs[i].example.id.as_str(),
                " ---\n",
            );
            section.append(feedback.as_str());
            section.append("\n");
            proof {
                lemma_views_push(r@, section);
            }
            r.push(section);
        }
        i = i + 1;
    }
    assert(all.take(i as int) =~= all);
    r
}

/// Renders runs as the evidence that a proposer is given. `score_texts` says how the score of each
/// run is written.
pub fn render_reflective_evidence(runs: &[ExampleRun], score_texts: &[String]) -> (r: Json)
    requires
        score_texts@.len() == runs@.len(),
    ensures
        r@ == evidence(views(runs@), views(score_texts@)),
{
    let ghost all = views(runs@);
    let ghost texts = views(score_texts@);
    let ghost whole = Seq::new(all.len(), |i: int| rendered_run(all[i], texts[i]));
    let mut examples: Vec<Json> = Vec::new();
    let mut i: usize = 0;
    assert(views(examples@) =~= whole.take(0));
    while i < runs.len()
        invariant
            i <= runs@.len(),
            score_texts@.len() == runs@.len(),
            all == views(runs@),
            texts == views(score_texts@),
            whole == Seq::new(all.len(), |i: int| rendered_run(all[i], texts[i])),
            views(examples@) == whole.take(i as int),
        decreases runs@.len() - i,
    {
        let example: Json = render_run(&runs[i], score_texts[i].as_str());
        proof {
            lemma_views_push(examples@, example);
            lemma_take_next(whole, i as int);
        }
        examples.push(example);
        i = i + 1;
    }
    assert(whole.take(i as int) =~= whole);
    let sections: String = join(&render_feedback(runs), "\n");
    let sections_json: Json = if sections.as_str().unicode_len() == 0 {
        Json::Null
    } else {
        Json::Text(sections)
    };
    Json::object(
        two_members("examples", Json::array(examples), "feedback_sections", sections_json),
    )
}

/// The request that a proposer is given.
pub open spec fn reflective(
    request: StrategyRequestView,
    score_texts: Seq<Seq<char>>,
) -> ReflectiveProposalRequestView {
    ReflectiveProposalRequestView {
        run_id: request.run_id,
        experiment_id: request.experiment_id,
        generation: request.generation,
        artifact_dir: request.artifact_dir,
        parent_candidate_id: request.evidence.parent.id,
        mutable_components: request.evidence.parent.mutable_components,
        evidence: evidence(request.evidence.evaluated_examples, score_texts),
        output_schema: output_schema(),
    }
}

/// Makes the request that a proposer is given. `score_texts` says how the score of each evaluated
/// example is written.
pub fn reflective_request(request: StrategyRequest, score_texts: &[String]) -> (r:
    ReflectiveProposalRequest)
    requires
        score_texts@.len() == request.evidence.evaluated_examples@.len(),
    ensures
        r@ == reflective(request@, views(score_texts@)),
{
    ReflectiveProposalRequest {
        run_id: request.run_id,
        experiment_id: request.experiment_id,
        generation: request.generation,
        artifact_dir: request.artifact_dir,
        parent_candidate_id: request.evidence.parent.id.clone(),
        mutable_components: request.evidence.parent.mutable_components.duplicate(),
        evidence: render_reflective_evidence(
            request.evidence.evaluated_examples.as_slice(),
            score_texts,
        ),
        output_schema: proposal_output_schema(),
    }
}

} // verus!
