//! Core data model: candidates, evaluations, configuration and records.

use vstd::prelude::*;
use vstd::string::*;

use crate::json::{Json, JsonView};
use crate::score::{Score, ONE};
use crate::string_map::StringMap;
use crate::views::{
    duplicate_all, duplicate_opt, lemma_take_next, lemma_views_push, opt_view, views, Duplicate,
};

verus! {

/// What can go wrong in the optimizer.
#[derive(Clone, Debug, PartialEq)]
pub enum HarnessOptError {
    UnknownComponent(String),
    ConstraintViolation { component_id: String, reason: String },
    InvalidProposal(String),
    Harness(String),
    Strategy(String),
    Cancelled,
    Io(String),
    Json(String),
    Sqlite(String),
    Store(String),
}

/// The view of a [`HarnessOptError`].
#[verifier::ext_equal]
pub enum HarnessOptErrorView {
    UnknownComponent(Seq<char>),
    ConstraintViolation { component_id: Seq<char>, reason: Seq<char> },
    InvalidProposal(Seq<char>),
    Harness(Seq<char>),
    Strategy(Seq<char>),
    Cancelled,
    Io(Seq<char>),
    Json(Seq<char>),
    Sqlite(Seq<char>),
    Store(Seq<char>),
}

impl View for HarnessOptError {
    type V = HarnessOptErrorView;

    open spec fn view(&self) -> HarnessOptErrorView {
        match self {
            HarnessOptError::UnknownComponent(a) => HarnessOptErrorView::UnknownComponent(a@),
            HarnessOptError::ConstraintViolation { component_id, reason } => HarnessOptErrorView::ConstraintViolation {
                component_id: component_id@,
                reason: reason@,
            },
            HarnessOptError::InvalidProposal(a) => HarnessOptErrorView::InvalidProposal(a@),
            HarnessOptError::Harness(a) => HarnessOptErrorView::Harness(a@),
            HarnessOptError::Strategy(a) => HarnessOptErrorView::Strategy(a@),
            HarnessOptError::Cancelled => HarnessOptErrorView::Cancelled,
            HarnessOptError::Io(a) => HarnessOptErrorView::Io(a@),
            HarnessOptError::Json(a) => HarnessOptErrorView::Json(a@),
            HarnessOptError::Sqlite(a) => HarnessOptErrorView::Sqlite(a@),
            HarnessOptError::Store(a) => HarnessOptErrorView::Store(a@),
        }
    }
}

impl Duplicate for HarnessOptError {
    fn duplicate(&self) -> (r: Self) {
        match self {
            HarnessOptError::UnknownComponent(a) => HarnessOptError::UnknownComponent(a.clone()),
            HarnessOptError::ConstraintViolation { component_id, reason } => HarnessOptError::ConstraintViolation {
                component_id: component_id.clone(),
                reason: reason.clone(),
            },
            HarnessOptError::InvalidProposal(a) => HarnessOptError::InvalidProposal(a.clone()),
            HarnessOptError::Harness(a) => HarnessOptError::Harness(a.clone()),
            HarnessOptError::Strategy(a) => HarnessOptError::Strategy(a.clone()),
            HarnessOptError::Cancelled => HarnessOptError::Cancelled,
            HarnessOptError::Io(a) => HarnessOptError::Io(a.clone()),
            HarnessOptError::Json(a) => HarnessOptError::Json(a.clone()),
            HarnessOptError::Sqlite(a) => HarnessOptError::Sqlite(a.clone()),
            HarnessOptError::Store(a) => HarnessOptError::Store(a.clone()),
        }
    }
}

/// The message of an error.
pub open spec fn message_text(error: HarnessOptErrorView) -> Seq<char> {
    match error {
        HarnessOptErrorView::UnknownComponent(id) => "unknown mutable component `"@ + id + "`"@,
        HarnessOptErrorView::ConstraintViolation { component_id, reason } => "component `"@
            + component_id + "` violates constraint: "@ + reason,
        HarnessOptErrorView::InvalidProposal(text) => "invalid proposal: "@ + text,
        HarnessOptErrorView::Harness(text) => "harness error: "@ + text,
        HarnessOptErrorView::Strategy(text) => "strategy error: "@ + text,
        HarnessOptErrorView::Cancelled => "optimizer cancelled"@,
        HarnessOptErrorView::Io(text) => "io error: "@ + text,
        HarnessOptErrorView::Json(text) => "json error: "@ + text,
        HarnessOptErrorView::Sqlite(text) => "sqlite error: "@ + text,
        HarnessOptErrorView::Store(text) => "store error: "@ + text,
    }
}

impl HarnessOptError {
    /// The message of the error.
    pub fn message(&self) -> (r: String)
        ensures
            r@ == message_text(self@),
    {
        match self {
            HarnessOptError::UnknownComponent(id) => {
                let mut r: String = "unknown mutable component `".to_string();
                r.append(id.as_str());
                r.append("`");
                r
            },
            HarnessOptError::ConstraintViolation { component_id, reason } => {
                let mut r: String = "component `".to_string();
                r.append(component_id.as_str());
                r.append("` violates constraint: ");
                r.append(reason.as_str());
                r
            },
            HarnessOptError::InvalidProposal(text) => prefixed("invalid proposal: ", text),
            HarnessOptError::Harness(text) => prefixed("harness error: ", text),
            HarnessOptError::Strategy(text) => prefixed("strategy error: ", text),
            HarnessOptError::Cancelled => "optimizer cancelled".to_string(),
            HarnessOptError::Io(text) => prefixed("io error: ", text),
            HarnessOptError::Json(text) => prefixed("json error: ", text),
            HarnessOptError::Sqlite(text) => prefixed("sqlite error: ", text),
            HarnessOptError::Store(text) => prefixed("store error: ", text),
        }
    }
}

fn prefixed(start: &str, text: &String) -> (r: String)
    ensures
        r@ == start@ + text@,
{
    let mut r: String = start.to_string();
    r.append(text.as_str());
    r
}

/// A copy of a list of numbers.
pub fn copy_indices(v: &Vec<usize>) -> (r: Vec<usize>)
    ensures
        r@ == v@,
{
    let mut r: Vec<usize> = Vec::new();
    let mut i: usize = 0;
    while i < v.len()
        invariant
            i <= v@.len(),
            r@ == v@.take(i as int),
        decreases v@.len() - i,
    {
        proof {
            lemma_take_next(v@, i as int);
        }
        r.push(v[i]);
        i = i + 1;
    }
    assert(v@.take(i as int) =~= v@);
    r
}

/// The part of a data set that an example belongs to.
#[derive(Clone, Copy, Debug, PartialEq, Eq, Hash, Structural)]
pub enum Split {
    Train,
    Val,
    Test,
}

impl View for Split {
    type V = Split;

    open spec fn view(&self) -> Split {
        *self
    }
}

impl Duplicate for Split {
    fn duplicate(&self) -> (r: Self) {
        *self
    }
}

/// The name of a split.
pub open spec fn split_name(split: Split) -> Seq<char> {
    match split {
        Split::Train => "train"@,
        Split::Val => "val"@,
        Split::Test => "test"@,
    }
}

impl Split {
    /// The name of the split.
    pub fn as_str(&self) -> (r: &'static str)
        ensures
            r@ == split_name(*self),
    {
        match self {
            Split::Train => "train",
            Split::Val => "val",
            Split::Test => "test",
        }
    }
}

/// A prompt template, by the JSON document that stands for it.
#[derive(Clone, Debug, PartialEq)]
pub struct PromptTemplate {
    pub document: Json,
}

/// The view of a [`PromptTemplate`].
#[verifier::ext_equal]
pub struct PromptTemplateView {
    pub document: JsonView,
}

impl View for PromptTemplate {
    type V = PromptTemplateView;

    open spec fn view(&self) -> PromptTemplateView {
        PromptTemplateView {
            document: self.document@,
        }
    }
}

impl Duplicate for PromptTemplate {
    fn duplicate(&self) -> (r: Self) {
        PromptTemplate {
            document: self.document.duplicate(),
        }
    }
}

/// A contribution to a prompt: its content, and the JSON document that stands for it.
#[derive(Clone, Debug, PartialEq)]
pub struct PromptContribution {
    pub content: String,
    pub document: Json,
}

/// The view of a [`PromptContribution`].
#[verifier::ext_equal]
pub struct PromptContributionView {
    pub content: Seq<char>,
    pub document: JsonView,
}

impl View for PromptContribution {
    type V = PromptContributionView;

    open spec fn view(&self) -> PromptContributionView {
        PromptContributionView {
            content: self.content@,
            document: self.document@,
        }
    }
}

impl Duplicate for PromptContribution {
    fn duplicate(&self) -> (r: Self) {
        PromptContribution {
            content: self.content.clone(),
            document: self.document.duplicate(),
        }
    }
}

/// The value of a component.
#[derive(Clone, Debug, PartialEq)]
pub enum ComponentValue {
    Text { text: String },
    Json { value: Json },
    PromptTemplate { template: PromptTemplate },
    PromptContribution { contribution: PromptContribution },
}

/// The view of a [`ComponentValue`].
#[verifier::ext_equal]
pub enum ComponentValueView {
    Text { text: Seq<char> },
    Json { value: JsonView },
    PromptTemplate { template: PromptTemplateView },
    PromptContribution { contribution: PromptContributionView },
}

impl View for ComponentValue {
    type V = ComponentValueView;

    open spec fn view(&self) -> ComponentValueView {
        match self {
            ComponentValue::Text { text } => ComponentValueView::Text {
                text: text@,
            },
            ComponentValue::Json { value } => ComponentValueView::Json {
                value: value@,
            },
            ComponentValue::PromptTemplate { template } => ComponentValueView::PromptTemplate {
                template: template@,
            },
            ComponentValue::PromptContribution { contribution } => ComponentValueView::PromptContribution {
                contribution: contribution@,
            },
        }
    }
}

impl Duplicate for ComponentValue {
    fn duplicate(&self) -> (r: Self) {
        match self {
            ComponentValue::Text { text } => ComponentValue::Text {
                text: text.clone(),
            },
            ComponentValue::Json { value } => ComponentValue::Json {
                value: value.duplicate(),
            },
            ComponentValue::PromptTemplate { template } => ComponentValue::PromptTemplate {
                template: template.duplicate(),
            },
            ComponentValue::PromptContribution { contribution } => ComponentValue::PromptContribution {
                contribution: contribution.duplicate(),
            },
        }
    }
}

/// The text that the constraints of a component speak of, where the value has one.
pub open spec fn constrained_text(value: ComponentValueView) -> Option<Seq<char>> {
    match value {
        ComponentValueView::Text { text } => Some(text),
        ComponentValueView::PromptContribution { contribution } => Some(contribution.content),
        _ => None,
    }
}

impl ComponentValue {
    /// The text that the constraints of a component speak of, where the value has one.
    pub fn text_for_constraints(&self) -> (r: Option<&str>)
        ensures
            match r {
                Some(text) => constrained_text(self@) == Some(text@),
                None => constrained_text(self@) is None,
            },
    {
        match self {
            ComponentValue::Text { text } => Some(text.as_str()),
            ComponentValue::PromptContribution { contribution } => Some(
                contribution.content.as_str(),
            ),
            ComponentValue::Json { .. } | ComponentValue::PromptTemplate { .. } => None,
        }
    }
}

/// What the text of a component has to keep to.
#[derive(Clone, Debug, PartialEq)]
pub struct ComponentConstraints {
    pub max_chars: Option<usize>,
    pub preserve_terms: Vec<String>,
    pub forbidden_terms: Vec<String>,
    pub format_hint: Option<String>,
}

/// The view of a [`ComponentConstraints`].
#[verifier::ext_equal]
pub struct ComponentConstraintsView {
    pub max_chars: Option<usize>,
    pub preserve_terms: Seq<Seq<char>>,
    pub forbidden_terms: Seq<Seq<char>>,
    pub format_hint: Option<Seq<char>>,
}

impl View for ComponentConstraints {
    type V = ComponentConstraintsView;

    open spec fn view(&self) -> ComponentConstraintsView {
        ComponentConstraintsView {
            max_chars: self.max_chars,
            preserve_terms: views(self.preserve_terms@),
            forbidden_terms: views(self.forbidden_terms@),
            format_hint: opt_view(self.format_hint),
        }
    }
}

impl Duplicate for ComponentConstraints {
    fn duplicate(&self) -> (r: Self) {
        ComponentConstraints {
            max_chars: self.max_chars,
            preserve_terms: duplicate_all(self.preserve_terms.as_slice()),
            forbidden_terms: duplicate_all(self.forbidden_terms.as_slice()),
            format_hint: duplicate_opt(&self.format_hint),
        }
    }
}

impl Default for ComponentConstraints {
    fn default() -> (r: Self)
        ensures
            r@ == (ComponentConstraintsView {
                max_chars: None,
                preserve_terms: Seq::empty(),
                forbidden_terms: Seq::empty(),
                format_hint: None,
            }),
    {
        let r = ComponentConstraints {
            max_chars: None,
            preserve_terms: Vec::new(),
            forbidden_terms: Vec::new(),
            format_hint: None,
        };
        assert(views(r.preserve_terms@) =~= Seq::empty());
        assert(views(r.forbidden_terms@) =~= Seq::empty());
        r
    }
}

/// A component of a candidate that patches may change.
#[derive(Clone, Debug, PartialEq)]
pub struct MutableComponent {
    pub id: String,
    pub description: Option<String>,
    pub value: ComponentValue,
    pub constraints: ComponentConstraints,
}

/// The view of a [`MutableComponent`].
#[verifier::ext_equal]
pub struct MutableComponentView {
    pub id: Seq<char>,
    pub description: Option<Seq<char>>,
    pub value: ComponentValueView,
    pub constraints: ComponentConstraintsView,
}

impl View for MutableComponent {
    type V = MutableComponentView;

    open spec fn view(&self) -> MutableComponentView {
        MutableComponentView {
            id: self.id@,
            description: opt_view(self.description),
            value: self.value@,
            constraints: self.constraints@,
        }
    }
}

impl Duplicate for MutableComponent {
    fn duplicate(&self) -> (r: Self) {
        MutableComponent {
            id: self.id.clone(),
            description: duplicate_opt(&self.description),
            value: self.value.duplicate(),
            constraints: self.constraints.duplicate(),
        }
    }
}

/// A candidate: what the optimizer may change of the harness, and what it may not.
#[derive(Clone, Debug, PartialEq)]
pub struct Candidate {
    pub id: String,
    pub parent_id: Option<String>,
    pub mutable_components: StringMap<MutableComponent>,
    pub immutable_context: StringMap<Json>,
    pub metadata: StringMap<Json>,
}

/// The view of a [`Candidate`].
#[verifier::ext_equal]
pub struct CandidateView {
    pub id: Seq<char>,
    pub parent_id: Option<Seq<char>>,
    pub mutable_components: Map<Seq<char>, MutableComponentView>,
    pub immutable_context: Map<Seq<char>, JsonView>,
    pub metadata: Map<Seq<char>, JsonView>,
}

impl View for Candidate {
    type V = CandidateView;

    open spec fn view(&self) -> CandidateView {
        CandidateView {
            id: self.id@,
            parent_id: opt_view(self.parent_id),
            mutable_components: self.mutable_components@,
            immutable_context: self.immutable_context@,
            metadata: self.metadata@,
        }
    }
}

impl Duplicate for Candidate {
    fn duplicate(&self) -> (r: Self) {
        Candidate {
            id: self.id.clone(),
            parent_id: duplicate_opt(&self.parent_id),
            mutable_components: self.mutable_components.duplicate(),
            immutable_context: self.immutable_context.duplicate(),
            metadata: self.metadata.duplicate(),
        }
    }
}

impl Candidate {
    /// The candidate with `component` in the place of the component of that id.
    pub fn with_component(self, component: MutableComponent) -> (r: Candidate)
        ensures
            r@ == (CandidateView {
                mutable_components: self@.mutable_components.insert(
                    component@.id,
                    component@,
                ),
                ..self@
            }),
    {
        let mut r: Candidate = self;
        let id: String = component.id.clone();
        r.mutable_components.insert(id, component);
        r
    }

    /// The component with the given id.
    pub fn component(&self, id: &str) -> (r: Result<&MutableComponent, HarnessOptError>)
        ensures
            match r {
                Ok(component) => self@.mutable_components.contains_key(id@) && component@
                    == self@.mutable_components[id@],
                Err(error) => !self@.mutable_components.contains_key(id@) && error@
                    == HarnessOptErrorView::UnknownComponent(id@),
            },
    {
        match self.mutable_components.get(id) {
            Some(component) => Ok(component),
            None => Err(HarnessOptError::UnknownComponent(id.to_string())),
        }
    }
}

/// A change of a candidate.
#[derive(Clone, Debug, PartialEq)]
pub enum ComponentPatch {
    ReplaceValue { component_id: String, value: ComponentValue },
}

/// The view of a [`ComponentPatch`].
#[verifier::ext_equal]
pub enum ComponentPatchView {
    ReplaceValue { component_id: Seq<char>, value: ComponentValueView },
}

impl View for ComponentPatch {
    type V = ComponentPatchView;

    open spec fn view(&self) -> ComponentPatchView {
        match self {
            ComponentPatch::ReplaceValue { component_id, value } => ComponentPatchView::ReplaceValue {
                component_id: component_id@,
                value: value@,
            },
        }
    }
}

impl Duplicate for ComponentPatch {
    fn duplicate(&self) -> (r: Self) {
        match self {
            ComponentPatch::ReplaceValue { component_id, value } => ComponentPatch::ReplaceValue {
                component_id: component_id.clone(),
                value: value.duplicate(),
            },
        }
    }
}

/// Changes that a strategy proposes for a candidate.
#[derive(Clone, Debug, PartialEq)]
pub struct CandidateProposal {
    pub parent_candidate_id: String,
    pub patches: Vec<ComponentPatch>,
    pub rationale: Option<String>,
    pub metadata: StringMap<Json>,
}

/// The view of a [`CandidateProposal`].
#[verifier::ext_equal]
pub struct CandidateProposalView {
    pub parent_candidate_id: Seq<char>,
    pub patches: Seq<ComponentPatchView>,
    pub rationale: Option<Seq<char>>,
    pub metadata: Map<Seq<char>, JsonView>,
}

impl View for CandidateProposal {
    type V = CandidateProposalView;

    open spec fn view(&self) -> CandidateProposalView {
        CandidateProposalView {
            parent_candidate_id: self.parent_candidate_id@,
            patches: views(self.patches@),
            rationale: opt_view(self.rationale),
            metadata: self.metadata@,
        }
    }
}

impl Duplicate for CandidateProposal {
    fn duplicate(&self) -> (r: Self) {
        CandidateProposal {
            parent_candidate_id: self.parent_candidate_id.clone(),
            patches: duplicate_all(self.patches.as_slice()),
            rationale: duplicate_opt(&self.rationale),
            metadata: self.metadata.duplicate(),
        }
    }
}

/// An example that candidates are evaluated on.
#[derive(Clone, Debug, PartialEq)]
pub struct HarnessExample {
    pub id: String,
    pub split: Split,
    pub input: Json,
    pub expected: Option<Json>,
    pub metadata: StringMap<Json>,
}

/// The view of a [`HarnessExample`].
#[verifier::ext_equal]
pub struct HarnessExampleView {
    pub id: Seq<char>,
    pub split: Split,
    pub input: JsonView,
    pub expected: Option<JsonView>,
    pub metadata: Map<Seq<char>, JsonView>,
}

impl View for HarnessExample {
    type V = HarnessExampleView;

    open spec fn view(&self) -> HarnessExampleView {
        HarnessExampleView {
            id: self.id@,
            split: self.split,
            input: self.input@,
            expected: opt_view(self.expected),
            metadata: self.metadata@,
        }
    }
}

impl Duplicate for HarnessExample {
    fn duplicate(&self) -> (r: Self) {
        HarnessExample {
            id: self.id.clone(),
            split: self.split,
            input: self.input.duplicate(),
            expected: duplicate_opt(&self.expected),
            metadata: self.metadata.duplicate(),
        }
    }
}

/// Paths of the files that an evaluation left.
#[derive(Clone, Debug, PartialEq)]
pub struct RunArtifacts {
    pub request_json: Option<String>,
    pub candidate_json: Option<String>,
    pub response_json: Option<String>,
    pub session_db: Option<String>,
    pub typed_trace_jsonl: Option<String>,
    pub rendered_evidence_json: Option<String>,
    pub score_report_json: Option<String>,
}

/// The view of a [`RunArtifacts`].
#[verifier::ext_equal]
pub struct RunArtifactsView {
    pub request_json: Option<Seq<char>>,
    pub candidate_json: Option<Seq<char>>,
    pub response_json: Option<Seq<char>>,
    pub session_db: Option<Seq<char>>,
    pub typed_trace_jsonl: Option<Seq<char>>,
    pub rendered_evidence_json: Option<Seq<char>>,
    pub score_report_json: Option<Seq<char>>,
}

impl View for RunArtifacts {
    type V = RunArtifactsView;

    open spec fn view(&self) -> RunArtifactsView {
        RunArtifactsView {
            request_json: opt_view(self.request_json),
            candidate_json: opt_view(self.candidate_json),
            response_json: opt_view(self.response_json),
            session_db: opt_view(self.session_db),
            typed_trace_jsonl: opt_view(self.typed_trace_jsonl),
            rendered_evidence_json: opt_view(self.rendered_evidence_json),
            score_report_json: opt_view(self.score_report_json),
        }
    }
}

impl Duplicate for RunArtifacts {
    fn duplicate(&self) -> (r: Self) {
        RunArtifacts {
            request_json: duplicate_opt(&self.request_json),
            candidate_json: duplicate_opt(&self.candidate_json),
            response_json: duplicate_opt(&self.response_json),
            session_db: duplicate_opt(&self.session_db),
            typed_trace_jsonl: duplicate_opt(&self.typed_trace_jsonl),
            rendered_evidence_json: duplicate_opt(&self.rendered_evidence_json),
            score_report_json: duplicate_opt(&self.score_report_json),
        }
    }
}

/// No artifacts.
pub open spec fn no_artifacts() -> RunArtifactsView {
    RunArtifactsView {
        request_json: None,
        candidate_json: None,
        response_json: None,
        session_db: None,
        typed_trace_jsonl: None,
        rendered_evidence_json: None,
        score_report_json: None,
    }
}

impl Default for RunArtifacts {
    fn default() -> (r: Self)
        ensures
            r@ == no_artifacts(),
    {
        RunArtifacts {
            request_json: None,
            candidate_json: None,
            response_json: None,
            session_db: None,
            typed_trace_jsonl: None,
            rendered_evidence_json: None,
            score_report_json: None,
        }
    }
}

/// How a candidate did on an example.
#[derive(Clone, Debug, PartialEq)]
pub struct EvaluationResult {
    pub example_id: String,
    pub split: Split,
    pub score: Score,
    pub passed: Option<bool>,
    pub feedback: Option<String>,
    pub metrics: StringMap<Score>,
    pub diagnostics: StringMap<Json>,
}

/// The view of an [`EvaluationResult`].
#[verifier::ext_equal]
pub struct EvaluationResultView {
    pub example_id: Seq<char>,
    pub split: Split,
    pub score: Score,
    pub passed: Option<bool>,
    pub feedback: Option<Seq<char>>,
    pub metrics: Map<Seq<char>, Score>,
    pub diagnostics: Map<Seq<char>, JsonView>,
}

impl View for EvaluationResult {
    type V = EvaluationResultView;

    open spec fn view(&self) -> EvaluationResultView {
        EvaluationResultView {
            example_id: self.example_id@,
            split: self.split,
            score: self.score,
            passed: self.passed,
            feedback: opt_view(self.feedback),
            metrics: self.metrics@,
            diagnostics: self.diagnostics@,
        }
    }
}

impl Duplicate for EvaluationResult {
    fn duplicate(&self) -> (r: Self) {
        EvaluationResult {
            example_id: self.example_id.clone(),
            split: self.split,
            score: self.score,
            passed: self.passed,
            feedback: duplicate_opt(&self.feedback),
            metrics: self.metrics.duplicate(),
            diagnostics: self.diagnostics.duplicate(),
        }
    }
}

/// What a trace record belongs to.
#[derive(Clone, Debug, PartialEq)]
pub struct TraceContext {
    pub run_id: Option<String>,
    pub experiment_id: Option<String>,
    pub candidate_id: Option<String>,
    pub candidate_parent_id: Option<String>,
    pub example_id: Option<String>,
    pub split: Option<String>,
    pub metadata: StringMap<Json>,
}

/// The view of a [`TraceContext`].
#[verifier::ext_equal]
pub struct TraceContextView {
    pub run_id: Option<Seq<char>>,
    pub experiment_id: Option<Seq<char>>,
    pub candidate_id: Option<Seq<char>>,
    pub candidate_parent_id: Option<Seq<char>>,
    pub example_id: Option<Seq<char>>,
    pub split: Option<Seq<char>>,
    pub metadata: Map<Seq<char>, JsonView>,
}

impl View for TraceContext {
    type V = TraceContextView;

    open spec fn view(&self) -> TraceContextView {
        TraceContextView {
            run_id: opt_view(self.run_id),
            experiment_id: opt_view(self.experiment_id),
            candidate_id: opt_view(self.candidate_id),
            candidate_parent_id: opt_view(self.candidate_parent_id),
            example_id: opt_view(self.example_id),
            split: opt_view(self.split),
            metadata: self.metadata@,
        }
    }
}

impl Duplicate for TraceContext {
    fn duplicate(&self) -> (r: Self) {
        TraceContext {
            run_id: duplicate_opt(&self.run_id),
            experiment_id: duplicate_opt(&self.experiment_id),
            candidate_id: duplicate_opt(&self.candidate_id),
            candidate_parent_id: duplicate_opt(&self.candidate_parent_id),
            example_id: duplicate_opt(&self.example_id),
            split: duplicate_opt(&self.split),
            metadata: self.metadata.duplicate(),
        }
    }
}

impl Default for TraceContext {
    fn default() -> (r: Self)
        ensures
            r@ == (TraceContextView {
                run_id: None,
                experiment_id: None,
                candidate_id: None,
                candidate_parent_id: None,
                example_id: None,
                split: None,
                metadata: Map::empty(),
            }),
    {
        TraceContext {
            run_id: None,
            experiment_id: None,
            candidate_id: None,
            candidate_parent_id: None,
            example_id: None,
            split: None,
            metadata: StringMap::new(),
        }
    }
}

/// What a trace record reports.
#[derive(Clone, Debug, PartialEq)]
pub enum TraceEvent {
    TurnStarted,
    TurnCompleted,
    ToolCallStarted,
    ToolCallCompleted,
    LlmCallFailed,
    LlmCallStarted,
    LlmCallCompleted { response_text: String },
    PromptBuilt,
    ProtocolStep { plugin_id: String, payload: Json },
    Other,
}

/// The view of a [`TraceEvent`].
#[verifier::ext_equal]
pub enum TraceEventView {
    TurnStarted,
    TurnCompleted,
    ToolCallStarted,
    ToolCallCompleted,
    LlmCallFailed,
    LlmCallStarted,
    LlmCallCompleted { response_text: Seq<char> },
    PromptBuilt,
    ProtocolStep { plugin_id: Seq<char>, payload: JsonView },
    Other,
}

impl View for TraceEvent {
    type V = TraceEventView;

    open spec fn view(&self) -> TraceEventView {
        match self {
            TraceEvent::TurnStarted => TraceEventView::TurnStarted,
            TraceEvent::TurnCompleted => TraceEventView::TurnCompleted,
            TraceEvent::ToolCallStarted => TraceEventView::ToolCallStarted,
            TraceEvent::ToolCallCompleted => TraceEventView::ToolCallCompleted,
            TraceEvent::LlmCallFailed => TraceEventView::LlmCallFailed,
            TraceEvent::LlmCallStarted => TraceEventView::LlmCallStarted,
            TraceEvent::LlmCallCompleted { response_text } => TraceEventView::LlmCallCompleted {
                response_text: response_text@,
            },
            TraceEvent::PromptBuilt => TraceEventView::PromptBuilt,
            TraceEvent::ProtocolStep { plugin_id, payload } => TraceEventView::ProtocolStep {
                plugin_id: plugin_id@,
                payload: payload@,
            },
            TraceEvent::Other => TraceEventView::Other,
        }
    }
}

impl Duplicate for TraceEvent {
    fn duplicate(&self) -> (r: Self) {
        match self {
            TraceEvent::TurnStarted => TraceEvent::TurnStarted,
            TraceEvent::TurnCompleted => TraceEvent::TurnCompleted,
            TraceEvent::ToolCallStarted => TraceEvent::ToolCallStarted,
            TraceEvent::ToolCallCompleted => TraceEvent::ToolCallCompleted,
            TraceEvent::LlmCallFailed => TraceEvent::LlmCallFailed,
            TraceEvent::LlmCallStarted => TraceEvent::LlmCallStarted,
            TraceEvent::LlmCallCompleted { response_text } => TraceEvent::LlmCallCompleted {
                response_text: response_text.clone(),
            },
            TraceEvent::PromptBuilt => TraceEvent::PromptBuilt,
            TraceEvent::ProtocolStep { plugin_id, payload } => TraceEvent::ProtocolStep {
                plugin_id: plugin_id.clone(),
                payload: payload.duplicate(),
            },
            TraceEvent::Other => TraceEvent::Other,
        }
    }
}

/// A record of a trace. The timestamp is kept as it is written in JSON.
#[derive(Clone, Debug, PartialEq)]
pub struct TraceRecord {
    pub context: TraceContext,
    pub event: TraceEvent,
    pub timestamp: Json,
}

/// The view of a [`TraceRecord`].
#[verifier::ext_equal]
pub struct TraceRecordView {
    pub context: TraceContextView,
    pub event: TraceEventView,
    pub timestamp: JsonView,
}

impl View for TraceRecord {
    type V = TraceRecordView;

    open spec fn view(&self) -> TraceRecordView {
        TraceRecordView {
            context: self.context@,
            event: self.event@,
            timestamp: self.timestamp@,
        }
    }
}

impl Duplicate for TraceRecord {
    fn duplicate(&self) -> (r: Self) {
        TraceRecord {
            context: self.context.duplicate(),
            event: self.event.duplicate(),
            timestamp: self.timestamp.duplicate(),
        }
    }
}

/// The trace of an evaluation.
#[derive(Clone, Debug, PartialEq)]
pub struct TraceBundle {
    pub example_id: String,
    pub records: Vec<TraceRecord>,
}

/// The view of a [`TraceBundle`].
#[verifier::ext_equal]
pub struct TraceBundleView {
    pub example_id: Seq<char>,
    pub records: Seq<TraceRecordView>,
}

impl View for TraceBundle {
    type V = TraceBundleView;

    open spec fn view(&self) -> TraceBundleView {
        TraceBundleView {
            example_id: self.example_id@,
            records: views(self.records@),
        }
    }
}

impl Duplicate for TraceBundle {
    fn duplicate(&self) -> (r: Self) {
        TraceBundle {
            example_id: self.example_id.clone(),
            records: duplicate_all(self.records.as_slice()),
        }
    }
}

/// The evaluation of a candidate on an example.
#[derive(Clone, Debug, PartialEq)]
pub struct ExampleRun {
    pub example: HarnessExample,
    pub result: EvaluationResult,
    pub trace: Option<TraceBundle>,
    pub artifacts: RunArtifacts,
    pub metric_calls: u64,
}

/// The view of an [`ExampleRun`].
#[verifier::ext_equal]
pub struct ExampleRunView {
    pub example: HarnessExampleView,
    pub result: EvaluationResultView,
    pub trace: Option<TraceBundleView>,
    pub artifacts: RunArtifactsView,
    pub metric_calls: u64,
}

impl View for ExampleRun {
    type V = ExampleRunView;

    open spec fn view(&self) -> ExampleRunView {
        ExampleRunView {
            example: self.example@,
            result: self.result@,
            trace: opt_view(self.trace),
            artifacts: self.artifacts@,
            metric_calls: self.metric_calls,
        }
    }
}

impl Duplicate for ExampleRun {
    fn duplicate(&self) -> (r: Self) {
        ExampleRun {
            example: self.example.duplicate(),
            result: self.result.duplicate(),
            trace: duplicate_opt(&self.trace),
            artifacts: self.artifacts.duplicate(),
            metric_calls: self.metric_calls,
        }
    }
}

/// The number of metric calls of a run that does not state it.
pub fn default_metric_calls() -> (r: u64)
    ensures
        r == 1,
{
    1
}

/// The evaluations of a candidate, by example.
#[derive(Clone, Debug, PartialEq)]
pub struct CandidateEvaluation {
    pub candidate: Candidate,
    pub evaluations: StringMap<EvaluationResult>,
    pub traces: StringMap<TraceBundle>,
    pub artifacts: StringMap<RunArtifacts>,
    pub metric_calls: StringMap<u64>,
}

/// The view of a [`CandidateEvaluation`].
#[verifier::ext_equal]
pub struct CandidateEvaluationView {
    pub candidate: CandidateView,
    pub evaluations: Map<Seq<char>, EvaluationResultView>,
    pub traces: Map<Seq<char>, TraceBundleView>,
    pub artifacts: Map<Seq<char>, RunArtifactsView>,
    pub metric_calls: Map<Seq<char>, u64>,
}

impl View for CandidateEvaluation {
    type V = CandidateEvaluationView;

    open spec fn view(&self) -> CandidateEvaluationView {
        CandidateEvaluationView {
            candidate: self.candidate@,
            evaluations: self.evaluations@,
            traces: self.traces@,
            artifacts: self.artifacts@,
            metric_calls: self.metric_calls@,
        }
    }
}

impl Duplicate for CandidateEvaluation {
    fn duplicate(&self) -> (r: Self) {
        CandidateEvaluation {
            candidate: self.candidate.duplicate(),
            evaluations: self.evaluations.duplicate(),
            traces: self.traces.duplicate(),
            artifacts: self.artifacts.duplicate(),
            metric_calls: self.metric_calls.duplicate(),
        }
    }
}

/// What a strategy is told of the parent.
#[derive(Clone, Debug, PartialEq)]
pub struct EvidenceBatch {
    pub parent: Candidate,
    pub evaluated_examples: Vec<ExampleRun>,
    pub frontier: Vec<CandidateEvaluation>,
}

/// The view of an [`EvidenceBatch`].
#[verifier::ext_equal]
pub struct EvidenceBatchView {
    pub parent: CandidateView,
    pub evaluated_examples: Seq<ExampleRunView>,
    pub frontier: Seq<CandidateEvaluationView>,
}

impl View for EvidenceBatch {
    type V = EvidenceBatchView;

    open spec fn view(&self) -> EvidenceBatchView {
        EvidenceBatchView {
            parent: self.parent@,
            evaluated_examples: views(self.evaluated_examples@),
            frontier: views(self.frontier@),
        }
    }
}

impl Duplicate for EvidenceBatch {
    fn duplicate(&self) -> (r: Self) {
        EvidenceBatch {
            parent: self.parent.duplicate(),
            evaluated_examples: duplicate_all(self.evaluated_examples.as_slice()),
            frontier: duplicate_all(self.frontier.as_slice()),
        }
    }
}

/// A request for proposals.
#[derive(Clone, Debug, PartialEq)]
pub struct StrategyRequest {
    pub run_id: String,
    pub experiment_id: String,
    pub generation: usize,
    pub artifact_dir: String,
    pub evidence: EvidenceBatch,
}

/// The view of a [`StrategyRequest`].
#[verifier::ext_equal]
pub struct StrategyRequestView {
    pub run_id: Seq<char>,
    pub experiment_id: Seq<char>,
    pub generation: usize,
    pub artifact_dir: Seq<char>,
    pub evidence: EvidenceBatchView,
}

impl View for StrategyRequest {
    type V = StrategyRequestView;

    open spec fn view(&self) -> StrategyRequestView {
        StrategyRequestView {
            run_id: self.run_id@,
            experiment_id: self.experiment_id@,
            generation: self.generation,
            artifact_dir: self.artifact_dir@,
            evidence: self.evidence@,
        }
    }
}

impl Duplicate for StrategyRequest {
    fn duplicate(&self) -> (r: Self) {
        StrategyRequest {
            run_id: self.run_id.clone(),
            experiment_id: self.experiment_id.clone(),
            generation: self.generation,
            artifact_dir: self.artifact_dir.clone(),
            evidence: self.evidence.duplicate(),
        }
    }
}

/// The evaluation of a candidate that has not been evaluated on any example.
pub open spec fn unevaluated(candidate: CandidateView) -> CandidateEvaluationView {
    CandidateEvaluationView {
        candidate,
        evaluations: Map::empty(),
        traces: Map::empty(),
        artifacts: Map::empty(),
        metric_calls: Map::empty(),
    }
}

/// The entry of `key`, where there is one.
pub open spec fn entry<V>(map: Map<Seq<char>, V>, key: Seq<char>) -> Option<V> {
    if map.contains_key(key) {
        Some(map[key])
    } else {
        None
    }
}

/// The run that an evaluation holds of an example; `calls` stands for a missing number of calls.
pub open spec fn run_of(
    evaluation: CandidateEvaluationView,
    example: HarnessExampleView,
    calls: u64,
) -> ExampleRunView {
    ExampleRunView {
        example,
        result: evaluation.evaluations[example.id],
        trace: entry(evaluation.traces, example.id),
        artifacts: match entry(evaluation.artifacts, example.id) {
            Some(artifacts) => artifacts,
            None => no_artifacts(),
        },
        metric_calls: match entry(evaluation.metric_calls, example.id) {
            Some(n) => n,
            None => calls,
        },
    }
}

/// The runs that an evaluation holds of the examples, in their order.
pub open spec fn runs_for(
    evaluation: CandidateEvaluationView,
    examples: Seq<HarnessExampleView>,
) -> Seq<ExampleRunView>
    decreases examples.len(),
{
    if examples.len() == 0 {
        Seq::empty()
    } else {
        let before = runs_for(evaluation, examples.drop_last());
        if evaluation.evaluations.contains_key(examples.last().id) {
            before.push(run_of(evaluation, examples.last(), 0))
        } else {
            before
        }
    }
}

impl CandidateEvaluation {
    /// The evaluation of a candidate that has not been evaluated on any example.
    pub fn new(candidate: Candidate) -> (r: Self)
        ensures
            r@ == unevaluated(candidate@),
    {
        CandidateEvaluation {
            candidate,
            evaluations: StringMap::new(),
            traces: StringMap::new(),
            artifacts: StringMap::new(),
            metric_calls: StringMap::new(),
        }
    }

    /// The run of `example`, where the evaluation has its result; `calls` stands for a missing
    /// number of calls.
    pub fn example_run(&self, example: &HarnessExample, calls: u64) -> (r: Option<ExampleRun>)
        ensures
            match r {
                Some(run) => self@.evaluations.contains_key(example@.id) && run@ == run_of(
                    self@,
                    example@,
                    calls,
                ),
                None => !self@.evaluations.contains_key(example@.id),
            },
    {
        let id: &str = example.id.as_str();
        match self.evaluations.get(id) {
            Some(result) => Some(
                ExampleRun {
                    example: example.duplicate(),
                    result: result.duplicate(),
                    trace: match self.traces.get(id) {
                        Some(trace) => Some(trace.duplicate()),
                        None => None,
                    },
                    artifacts: match self.artifacts.get(id) {
                        Some(artifacts) => artifacts.duplicate(),
                        None => RunArtifacts::default(),
                    },
                    metric_calls: match self.metric_calls.get(id) {
                        Some(n) => *n,
                        None => calls,
                    },
                },
            ),
            None => None,
        }
    }

    /// The runs of those of `examples` that the evaluation has results of.
    pub fn example_runs_for(&self, examples: &[HarnessExample]) -> (r: Vec<ExampleRun>)
        ensures
            views(r@) == runs_for(self@, views(examples@)),
    {
        let mut r: Vec<ExampleRun> = Vec::new();
        let ghost all = views(examples@);
        let mut i: usize = 0;
        assert(views(r@) =~= runs_for(self@, all.take(0)));
        while i < examples.len()
            invariant
                i <= examples@.len(),
                all == views(examples@),
                views(r@) == runs_for(self@, all.take(i as int)),
            decreases examples@.len() - i,
        {
            assert(all.take(i + 1).drop_last() =~= all.take(i as int));
            if let Some(run) = self.example_run(&examples[i], 0) {
                proof {
                    lemma_views_push(r@, run);
                }
                r.push(run);
            }
            i = i + 1;
        }
        assert(all.take(i as int) =~= all);
        r
    }
}

/// How the parent of a proposal is selected.
#[derive(Clone, Copy, Debug, Default, PartialEq, Eq, Hash, Structural)]
pub enum CandidateSelection {
    #[default]
    Pareto,
    CurrentBest,
    EpsilonGreedy,
}

impl View for CandidateSelection {
    type V = CandidateSelection;

    open spec fn view(&self) -> CandidateSelection {
        *self
    }
}

impl Duplicate for CandidateSelection {
    fn duplicate(&self) -> (r: Self) {
        *self
    }
}

/// Which components of the parent a proposal may patch.
#[derive(Clone, Copy, Debug, Default, PartialEq, Eq, Hash, Structural)]
pub enum ComponentSelection {
    #[default]
    RoundRobin,
    All,
}

impl View for ComponentSelection {
    type V = ComponentSelection;

    open spec fn view(&self) -> ComponentSelection {
        *self
    }
}

impl Duplicate for ComponentSelection {
    fn duplicate(&self) -> (r: Self) {
        *self
    }
}

/// How the frontier of candidates is formed.
#[derive(Clone, Copy, Debug, Default, PartialEq, Eq, Hash, Structural)]
pub enum FrontierMode {
    #[default]
    Instance,
    Objective,
    Hybrid,
    Cartesian,
}

impl View for FrontierMode {
    type V = FrontierMode;

    open spec fn view(&self) -> FrontierMode {
        *self
    }
}

impl Duplicate for FrontierMode {
    fn duplicate(&self) -> (r: Self) {
        *self
    }
}

/// The settings of a run.
#[derive(Clone, Debug, PartialEq)]
pub struct OptimizationConfig {
    pub max_metric_calls: u64,
    pub max_iterations: Option<usize>,
    pub minibatch_size: usize,
    pub max_concurrency: usize,
    pub perfect_score: Score,
    pub skip_perfect_score: bool,
    pub candidate_selection: CandidateSelection,
    pub component_selection: ComponentSelection,
    pub frontier: FrontierMode,
    pub use_merge: bool,
    pub max_merge_invocations: usize,
    pub per_example_timeout_secs: Option<u64>,
    /// Provider model slug of the model that evaluates candidates.
    pub task_lm: String,
    /// Provider model slug of the model that proposes new candidates.
    pub reflection_lm: String,
}

/// The view of an [`OptimizationConfig`].
#[verifier::ext_equal]
pub struct OptimizationConfigView {
    pub max_metric_calls: u64,
    pub max_iterations: Option<usize>,
    pub minibatch_size: usize,
    pub max_concurrency: usize,
    pub perfect_score: Score,
    pub skip_perfect_score: bool,
    pub candidate_selection: CandidateSelection,
    pub component_selection: ComponentSelection,
    pub frontier: FrontierMode,
    pub use_merge: bool,
    pub max_merge_invocations: usize,
    pub per_example_timeout_secs: Option<u64>,
    pub task_lm: Seq<char>,
    pub reflection_lm: Seq<char>,
}

impl View for OptimizationConfig {
    type V = OptimizationConfigView;

    open spec fn view(&self) -> OptimizationConfigView {
        OptimizationConfigView {
            max_metric_calls: self.max_metric_calls,
            max_iterations: self.max_iterations,
            minibatch_size: self.minibatch_size,
            max_concurrency: self.max_concurrency,
            perfect_score: self.perfect_score,
            skip_perfect_score: self.skip_perfect_score,
            candidate_selection: self.candidate_selection,
            component_selection: self.component_selection,
            frontier: self.frontier,
            use_merge: self.use_merge,
            max_merge_invocations: self.max_merge_invocations,
            per_example_timeout_secs: self.per_example_timeout_secs,
            task_lm: self.task_lm@,
            reflection_lm: self.reflection_lm@,
        }
    }
}

impl Duplicate for OptimizationConfig {
    fn duplicate(&self) -> (r: Self) {
        OptimizationConfig {
            max_metric_calls: self.max_metric_calls,
            max_iterations: self.max_iterations,
            minibatch_size: self.minibatch_size,
            max_concurrency: self.max_concurrency,
            perfect_score: self.perfect_score,
            skip_perfect_score: self.skip_perfect_score,
            candidate_selection: self.candidate_selection,
            component_selection: self.component_selection,
            frontier: self.frontier,
            use_merge: self.use_merge,
            max_merge_invocations: self.max_merge_invocations,
            per_example_timeout_secs: self.per_example_timeout_secs,
            task_lm: self.task_lm.clone(),
            reflection_lm: self.reflection_lm.clone(),
        }
    }
}

/// The settings that a run has where nothing else is said.
pub open spec fn default_config() -> OptimizationConfigView {
    OptimizationConfigView {
        max_metric_calls: 64,
        max_iterations: None,
        minibatch_size: 8,
        max_concurrency: 4,
        perfect_score: Score { bits: ONE },
        skip_perfect_score: true,
        candidate_selection: CandidateSelection::Pareto,
        component_selection: ComponentSelection::RoundRobin,
        frontier: FrontierMode::Instance,
        use_merge: false,
        max_merge_invocations: 0,
        per_example_timeout_secs: Some(300),
        task_lm: Seq::empty(),
        reflection_lm: Seq::empty(),
    }
}

impl Default for OptimizationConfig {
    fn default() -> (r: Self)
        ensures
            r@ == default_config(),
    {
        OptimizationConfig {
            max_metric_calls: 64,
            max_iterations: None,
            minibatch_size: 8,
            max_concurrency: 4,
            perfect_score: Score { bits: ONE },
            skip_perfect_score: true,
            candidate_selection: CandidateSelection::Pareto,
            component_selection: ComponentSelection::RoundRobin,
            frontier: FrontierMode::Instance,
            use_merge: false,
            max_merge_invocations: 0,
            per_example_timeout_secs: Some(300),
            task_lm: String::new(),
            reflection_lm: String::new(),
        }
    }
}

/// A run of the optimizer.
#[derive(Clone, Debug, PartialEq)]
pub struct OptimizationRun {
    pub run_id: String,
    pub experiment_id: String,
    pub run_dir: String,
    pub config: OptimizationConfig,
}

/// The view of an [`OptimizationRun`].
#[verifier::ext_equal]
pub struct OptimizationRunView {
    pub run_id: Seq<char>,
    pub experiment_id: Seq<char>,
    pub run_dir: Seq<char>,
    pub config: OptimizationConfigView,
}

impl View for OptimizationRun {
    type V = OptimizationRunView;

    open spec fn view(&self) -> OptimizationRunView {
        OptimizationRunView {
            run_id: self.run_id@,
            experiment_id: self.experiment_id@,
            run_dir: self.run_dir@,
            config: self.config@,
        }
    }
}

impl Duplicate for OptimizationRun {
    fn duplicate(&self) -> (r: Self) {
        OptimizationRun {
            run_id: self.run_id.clone(),
            experiment_id: self.experiment_id.clone(),
            run_dir: self.run_dir.clone(),
            config: self.config.duplicate(),
        }
    }
}

/// The proposals of a generation.
#[derive(Clone, Debug, PartialEq)]
pub struct GenerationReport {
    pub generation: usize,
    pub parent_candidate_id: String,
    pub proposed_candidate_ids: Vec<String>,
}

/// The view of a [`GenerationReport`].
#[verifier::ext_equal]
pub struct GenerationReportView {
    pub generation: usize,
    pub parent_candidate_id: Seq<char>,
    pub proposed_candidate_ids: Seq<Seq<char>>,
}

impl View for GenerationReport {
    type V = GenerationReportView;

    open spec fn view(&self) -> GenerationReportView {
        GenerationReportView {
            generation: self.generation,
            parent_candidate_id: self.parent_candidate_id@,
            proposed_candidate_ids: views(self.proposed_candidate_ids@),
        }
    }
}

impl Duplicate for GenerationReport {
    fn duplicate(&self) -> (r: Self) {
        GenerationReport {
            generation: self.generation,
            parent_candidate_id: self.parent_candidate_id.clone(),
            proposed_candidate_ids: duplicate_all(self.proposed_candidate_ids.as_slice()),
        }
    }
}

/// What a run has found so far.
#[derive(Clone, Debug, PartialEq)]
pub struct OptimizationState {
    pub run: OptimizationRun,
    pub evaluated_candidates: Vec<CandidateEvaluation>,
    pub best_candidate_id: Option<String>,
    pub metric_calls_used: u64,
    pub cache_hits: u64,
    pub cache_misses: u64,
    pub accepted_proposals: u64,
    pub rejected_proposals: u64,
}

/// The view of an [`OptimizationState`].
#[verifier::ext_equal]
pub struct OptimizationStateView {
    pub run: OptimizationRunView,
    pub evaluated_candidates: Seq<CandidateEvaluationView>,
    pub best_candidate_id: Option<Seq<char>>,
    pub metric_calls_used: u64,
    pub cache_hits: u64,
    pub cache_misses: u64,
    pub accepted_proposals: u64,
    pub rejected_proposals: u64,
}

impl View for OptimizationState {
    type V = OptimizationStateView;

    open spec fn view(&self) -> OptimizationStateView {
        OptimizationStateView {
            run: self.run@,
            evaluated_candidates: views(self.evaluated_candidates@),
            best_candidate_id: opt_view(self.best_candidate_id),
            metric_calls_used: self.metric_calls_used,
            cache_hits: self.cache_hits,
            cache_misses: self.cache_misses,
            accepted_proposals: self.accepted_proposals,
            rejected_proposals: self.rejected_proposals,
        }
    }
}

impl Duplicate for OptimizationState {
    fn duplicate(&self) -> (r: Self) {
        OptimizationState {
            run: self.run.duplicate(),
            evaluated_candidates: duplicate_all(self.evaluated_candidates.as_slice()),
            best_candidate_id: duplicate_opt(&self.best_candidate_id),
            metric_calls_used: self.metric_calls_used,
            cache_hits: self.cache_hits,
            cache_misses: self.cache_misses,
            accepted_proposals: self.accepted_proposals,
            rejected_proposals: self.rejected_proposals,
        }
    }
}

/// A candidate as it is stored.
#[derive(Clone, Debug, PartialEq)]
pub struct CandidateRecord {
    pub candidate: Candidate,
    pub fingerprint: String,
    pub parent_ids: Vec<String>,
    pub generation: usize,
    pub source_strategy: String,
    pub component_cursor: usize,
    pub discovery_budget: u64,
}

/// The view of a [`CandidateRecord`].
#[verifier::ext_equal]
pub struct CandidateRecordView {
    pub candidate: CandidateView,
    pub fingerprint: Seq<char>,
    pub parent_ids: Seq<Seq<char>>,
    pub generation: usize,
    pub source_strategy: Seq<char>,
    pub component_cursor: usize,
    pub discovery_budget: u64,
}

impl View for CandidateRecord {
    type V = CandidateRecordView;

    open spec fn view(&self) -> CandidateRecordView {
        CandidateRecordView {
            candidate: self.candidate@,
            fingerprint: self.fingerprint@,
            parent_ids: views(self.parent_ids@),
            generation: self.generation,
            source_strategy: self.source_strategy@,
            component_cursor: self.component_cursor,
            discovery_budget: self.discovery_budget,
        }
    }
}

impl Duplicate for CandidateRecord {
    fn duplicate(&self) -> (r: Self) {
        CandidateRecord {
            candidate: self.candidate.duplicate(),
            fingerprint: self.fingerprint.clone(),
            parent_ids: duplicate_all(self.parent_ids.as_slice()),
            generation: self.generation,
            source_strategy: self.source_strategy.clone(),
            component_cursor: self.component_cursor,
            discovery_budget: self.discovery_budget,
        }
    }
}

/// An evaluation as it is stored.
#[derive(Clone, Debug, PartialEq)]
pub struct EvaluationRecord {
    pub candidate_id: String,
    pub candidate_fingerprint: String,
    pub example_id: String,
    pub split: Split,
    pub score: Score,
    pub metrics: StringMap<Score>,
    pub feedback: Option<String>,
    pub diagnostics: StringMap<Json>,
    pub artifacts: RunArtifacts,
    pub trace: Option<TraceBundle>,
    pub metric_calls: u64,
    pub cache_hit: bool,
}

/// The view of an [`EvaluationRecord`].
#[verifier::ext_equal]
pub struct EvaluationRecordView {
    pub candidate_id: Seq<char>,
    pub candidate_fingerprint: Seq<char>,
    pub example_id: Seq<char>,
    pub split: Split,
    pub score: Score,
    pub metrics: Map<Seq<char>, Score>,
    pub feedback: Option<Seq<char>>,
    pub diagnostics: Map<Seq<char>, JsonView>,
    pub artifacts: RunArtifactsView,
    pub trace: Option<TraceBundleView>,
    pub metric_calls: u64,
    pub cache_hit: bool,
}

impl View for EvaluationRecord {
    type V = EvaluationRecordView;

    open spec fn view(&self) -> EvaluationRecordView {
        EvaluationRecordView {
            candidate_id: self.candidate_id@,
            candidate_fingerprint: self.candidate_fingerprint@,
            example_id: self.example_id@,
            split: self.split,
            score: self.score,
            metrics: self.metrics@,
            feedback: opt_view(self.feedback),
            diagnostics: self.diagnostics@,
            artifacts: self.artifacts@,
            trace: opt_view(self.trace),
            metric_calls: self.metric_calls,
            cache_hit: self.cache_hit,
        }
    }
}

impl Duplicate for EvaluationRecord {
    fn duplicate(&self) -> (r: Self) {
        EvaluationRecord {
            candidate_id: self.candidate_id.clone(),
            candidate_fingerprint: self.candidate_fingerprint.clone(),
            example_id: self.example_id.clone(),
            split: self.split,
            score: self.score,
            metrics: self.metrics.duplicate(),
            feedback: duplicate_opt(&self.feedback),
            diagnostics: self.diagnostics.duplicate(),
            artifacts: self.artifacts.duplicate(),
            trace: duplicate_opt(&self.trace),
            metric_calls: self.metric_calls,
            cache_hit: self.cache_hit,
        }
    }
}

/// A proposal as it is stored.
#[derive(Clone, Debug, PartialEq)]
pub struct ProposalRecord {
    pub run_id: String,
    pub generation: usize,
    pub parent_ids: Vec<String>,
    pub selected_components: Vec<String>,
    pub minibatch_ids: Vec<String>,
    pub patches: Vec<ComponentPatch>,
    pub rlm_prompt_ref: Option<String>,
    pub rlm_output_ref: Option<String>,
    pub before_score: Score,
    pub after_score: Score,
    pub accepted: bool,
    pub reason: String,
    pub candidate_id: Option<String>,
}

/// The view of a [`ProposalRecord`].
#[verifier::ext_equal]
pub struct ProposalRecordView {
    pub run_id: Seq<char>,
    pub generation: usize,
    pub parent_ids: Seq<Seq<char>>,
    pub selected_components: Seq<Seq<char>>,
    pub minibatch_ids: Seq<Seq<char>>,
    pub patches: Seq<ComponentPatchView>,
    pub rlm_prompt_ref: Option<Seq<char>>,
    pub rlm_output_ref: Option<Seq<char>>,
    pub before_score: Score,
    pub after_score: Score,
    pub accepted: bool,
    pub reason: Seq<char>,
    pub candidate_id: Option<Seq<char>>,
}

impl View for ProposalRecord {
    type V = ProposalRecordView;

    open spec fn view(&self) -> ProposalRecordView {
        ProposalRecordView {
            run_id: self.run_id@,
            generation: self.generation,
            parent_ids: views(self.parent_ids@),
            selected_components: views(self.selected_components@),
            minibatch_ids: views(self.minibatch_ids@),
            patches: views(self.patches@),
            rlm_prompt_ref: opt_view(self.rlm_prompt_ref),
            rlm_output_ref: opt_view(self.rlm_output_ref),
            before_score: self.before_score,
            after_score: self.after_score,
            accepted: self.accepted,
            reason: self.reason@,
            candidate_id: opt_view(self.candidate_id),
        }
    }
}

impl Duplicate for ProposalRecord {
    fn duplicate(&self) -> (r: Self) {
        ProposalRecord {
            run_id: self.run_id.clone(),
            generation: self.generation,
            parent_ids: duplicate_all(self.parent_ids.as_slice()),
            selected_components: duplicate_all(self.selected_components.as_slice()),
            minibatch_ids: duplicate_all(self.minibatch_ids.as_slice()),
            patches: duplicate_all(self.patches.as_slice()),
            rlm_prompt_ref: duplicate_opt(&self.rlm_prompt_ref),
            rlm_output_ref: duplicate_opt(&self.rlm_output_ref),
            before_score: self.before_score,
            after_score: self.after_score,
            accepted: self.accepted,
            reason: self.reason.clone(),
            candidate_id: duplicate_opt(&self.candidate_id),
        }
    }
}

/// Counts over what is stored.
#[derive(Clone, Debug, Default, PartialEq)]
pub struct StoreStats {
    pub metric_calls_used: u64,
    pub cache_hits: u64,
    pub cache_misses: u64,
    pub accepted_proposals: u64,
    pub rejected_proposals: u64,
    pub candidates: usize,
    pub evaluations: usize,
}

/// The view of a [`StoreStats`].
#[verifier::ext_equal]
pub struct StoreStatsView {
    pub metric_calls_used: u64,
    pub cache_hits: u64,
    pub cache_misses: u64,
    pub accepted_proposals: u64,
    pub rejected_proposals: u64,
    pub candidates: usize,
    pub evaluations: usize,
}

impl View for StoreStats {
    type V = StoreStatsView;

    open spec fn view(&self) -> StoreStatsView {
        StoreStatsView {
            metric_calls_used: self.metric_calls_used,
            cache_hits: self.cache_hits,
            cache_misses: self.cache_misses,
            accepted_proposals: self.accepted_proposals,
            rejected_proposals: self.rejected_proposals,
            candidates: self.candidates,
            evaluations: self.evaluations,
        }
    }
}

impl Duplicate for StoreStats {
    fn duplicate(&self) -> (r: Self) {
        StoreStats {
            metric_calls_used: self.metric_calls_used,
            cache_hits: self.cache_hits,
            cache_misses: self.cache_misses,
            accepted_proposals: self.accepted_proposals,
            rejected_proposals: self.rejected_proposals,
            candidates: self.candidates,
            evaluations: self.evaluations,
        }
    }
}

} // verus!
