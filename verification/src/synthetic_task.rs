//! A small question-answering task that needs no infrastructure: twenty questions with short
//! answers, scored by exact match.

use vstd::prelude::*;
use vstd::string::*;
use vstd::utf8::encode_utf8;

use crate::engine::concat3;
use crate::json::{
    json_view, member, member_views, opt_member, str_in, text_of, unsigned_number, Json, JsonView,
};
use crate::model::{
    no_artifacts, Candidate, CandidateView, ComponentConstraints, ComponentConstraintsView,
    ComponentValue, ComponentValueView, EvaluationResult, EvaluationResultView, ExampleRun,
    ExampleRunView, HarnessExample, HarnessExampleView, HarnessOptError, HarnessOptErrorView,
    MutableComponent, MutableComponentView, RunArtifacts, Split,
};
use crate::score::{Score, ONE};
use crate::string_map::StringMap;
use crate::text::{prefix, take_chars, trim, trimmed};
use crate::views::{duplicate_all, opt_view, views, Duplicate};

verus! {

/// The id of the component that holds the instruction.
pub const SYNTH_QA_COMPONENT_ID: &'static str = "synth_qa.system_instruction";

/// The instruction that the optimization starts with. It is brief on purpose: answers in whole
/// sentences do not equal the expected answers.
pub const SYNTH_SEED_PROMPT: &'static str = "Answer the question.";

/// An example of the task.
pub open spec fn example(
    id: Seq<char>,
    split: Split,
    question: Seq<char>,
    answer: Seq<char>,
    ty: Seq<char>,
) -> HarnessExampleView {
    HarnessExampleView {
        id,
        split,
        input: JsonView::Object(seq![("question"@, JsonView::Text(question))]),
        expected: Some(JsonView::Object(seq![("answer"@, JsonView::Text(answer))])),
        metadata: map!["type"@ => JsonView::Text(ty)],
    }
}

/// The examples to train on.
pub open spec fn train_examples() -> Seq<HarnessExampleView> {
    seq![
        example(
            "T01"@,
            Split::Train,
            "What is the ISO 3166-1 alpha-2 country code for Japan?"@,
            "JP"@,
            "format_sensitive"@,
        ),
        example(
            "T02"@,
            Split::Train,
            "What is the ISO 3166-1 alpha-2 country code for Germany?"@,
            "DE"@,
            "format_sensitive"@,
        ),
        example(
            "T03"@,
            Split::Train,
            "What is the ISO 3166-1 alpha-2 country code for Brazil?"@,
            "BR"@,
            "format_sensitive"@,
        ),
        example(
            "T04"@,
            Split::Train,
            "What is Euler's number e rounded to two decimal places?"@,
            "2.72"@,
            "format_sensitive"@,
        ),
        example(
            "T05"@,
            Split::Train,
            "What is the square root of 5 rounded to two decimal places?"@,
            "2.24"@,
            "format_sensitive"@,
        ),
        example(
            "T06"@,
            Split::Train,
            "What is the ISO 639-1 two-letter language code for Spanish?"@,
            "es"@,
            "format_sensitive"@,
        ),
        example(
            "T07"@,
            Split::Train,
            "How many sides does a hexagon have?"@,
            "6"@,
            "factual"@,
        ),
        example(
            "T08"@,
            Split::Train,
            "What is the largest planet in the Solar System?"@,
            "Jupiter"@,
            "factual"@,
        ),
        example(
            "T09"@,
            Split::Train,
            "In what year did World War I begin?"@,
            "1914"@,
            "factual"@,
        ),
        example(
            "T10"@,
            Split::Train,
            "What is the capital of France?"@,
            "Paris"@,
            "factual"@,
        ),
        example(
            "T11"@,
            Split::Train,
            "Who wrote the play Romeo and Juliet?"@,
            "Shakespeare"@,
            "factual"@,
        ),
        example(
            "T12"@,
            Split::Train,
            "How many bones are in the adult human body?"@,
            "206"@,
            "factual"@,
        ),
        example(
            "T13"@,
            Split::Train,
            "What is the smallest prime number?"@,
            "2"@,
            "factual"@,
        ),
        example(
            "T14"@,
            Split::Train,
            "In what year did Neil Armstrong first walk on the Moon?"@,
            "1969"@,
            "factual"@,
        ),
        example(
            "T15"@,
            Split::Train,
            "What is the longest river in Africa?"@,
            "Nile"@,
            "factual"@,
        ),
    ]
}

/// The examples to validate on.
pub open spec fn val_examples() -> Seq<HarnessExampleView> {
    seq![
        example(
            "V01"@,
            Split::Val,
            "What is the ISO 3166-1 alpha-2 country code for France?"@,
            "FR"@,
            "format_sensitive"@,
        ),
        example(
            "V02"@,
            Split::Val,
            "What is the square root of 7 rounded to two decimal places?"@,
            "2.65"@,
            "format_sensitive"@,
        ),
        example(
            "V03"@,
            Split::Val,
            "How many players are on a standard association football team?"@,
            "11"@,
            "factual"@,
        ),
        example(
            "V04"@,
            Split::Val,
            "What is the freezing point of water in degrees Celsius?"@,
            "0"@,
            "factual"@,
        ),
        example(
            "V05"@,
            Split::Val,
            "What is the name of the biological process by which plants produce food using sunlight?"@,
            "photosynthesis"@,
            "factual"@,
        ),
    ]
}

fn build_example(id: &str, split: Split, question: &str, answer: &str, ty: &str) -> (r:
    HarnessExample)
    ensures
        r@ == example(id@, split, question@, answer@, ty@),
{
    let mut input: Vec<(String, Json)> = Vec::new();
    input.push(("question".to_string(), Json::text(question)));
    assert(member_views(input@) =~= seq![("question"@, JsonView::Text(question@))]);
    let mut expected: Vec<(String, Json)> = Vec::new();
    expected.push(("answer".to_string(), Json::text(answer)));
    assert(member_views(expected@) =~= seq![("answer"@, JsonView::Text(answer@))]);
    let mut metadata: StringMap<Json> = StringMap::new();
    metadata.insert("type".to_string(), Json::text(ty));
    assert(metadata@ =~= map!["type"@ => JsonView::Text(ty@)]);
    HarnessExample {
        id: id.to_string(),
        split,
        input: Json::object(input),
        expected: Some(Json::object(expected)),
        metadata,
    }
}

/// The examples to train on.
pub fn build_train_examples() -> (r: Vec<HarnessExample>)
    ensures
        views(r@) == train_examples(),
{
    let mut r: Vec<HarnessExample> = Vec::new();
    r.push(
        build_example(
            "T01",
            Split::Train,
            "What is the ISO 3166-1 alpha-2 country code for Japan?",
            "JP",
            "format_sensitive",
        ),
    );
    r.push(
        build_example(
            "T02",
            Split::Train,
            "What is the ISO 3166-1 alpha-2 country code for Germany?",
            "DE",
            "format_sensitive",
        ),
    );
    r.push(
        build_example(
            "T03",
            Split::Train,
            "What is the ISO 3166-1 alpha-2 country code for Brazil?",
            "BR",
            "format_sensitive",
        ),
    );
    r.push(
        build_example(
            "T04",
            Split::Train,
            "What is Euler's number e rounded to two decimal places?",
            "2.72",
            "format_sensitive",
        ),
    );
    r.push(
        build_example(
            "T05",
            Split::Train,
            "What is the square root of 5 rounded to two decimal places?",
            "2.24",
            "format_sensitive",
        ),
    );
    r.push(
        build_example(
            "T06",
            Split::Train,
            "What is the ISO 639-1 two-letter language code for Spanish?",
            "es",
            "format_sensitive",
        ),
    );
    r.push(
        build_example(
            "T07",
            Split::Train,
            "How many sides does a hexagon have?",
            "6",
            "factual",
        ),
    );
    r.push(
        build_example(
            "T08",
            Split::Train,
            "What is the largest planet in the Solar System?",
            "Jupiter",
            "factual",
        ),
    );
    r.push(
        build_example(
            "T09",
            Split::Train,
            "In what year did World War I begin?",
            "1914",
            "factual",
        ),
    );
    r.push(
        build_example(
            "T10",
            Split::Train,
            "What is the capital of France?",
            "Paris",
            "factual",
        ),
    );
    r.push(
        build_example(
            "T11",
            Split::Train,
            "Who wrote the play Romeo and Juliet?",
            "Shakespeare",
            "factual",
        ),
    );
    r.push(
        build_example(
            "T12",
            Split::Train,
            "How many bones are in the adult human body?",
            "206",
            "factual",
        ),
    );
    r.push(
        build_example(
            "T13",
            Split::Train,
            "What is the smallest prime number?",
            "2",
            "factual",
        ),
    );
    r.push(
        build_example(
            "T14",
            Split::Train,
            "In what year did Neil Armstrong first walk on the Moon?",
            "1969",
            "factual",
        ),
    );
    r.push(
        build_example(
            "T15",
            Split::Train,
            "What is the longest river in Africa?",
            "Nile",
            "factual",
        ),
    );
    assert(views(r@) =~= train_examples());
    r
}

/// The examples to validate on.
pub fn build_val_examples() -> (r: Vec<HarnessExample>)
    ensures
        views(r@) == val_examples(),
{
    let mut r: Vec<HarnessExample> = Vec::new();
    r.push(
        build_example(
            "V01",
            Split::Val,
            "What is the ISO 3166-1 alpha-2 country code for France?",
            "FR",
            "format_sensitive",
        ),
    );
    r.push(
        build_example(
            "V02",
            Split::Val,
            "What is the square root of 7 rounded to two decimal places?",
            "2.65",
            "format_sensitive",
        ),
    );
    r.push(
        build_example(
            "V03",
            Split::Val,
            "How many players are on a standard association football team?",
            "11",
            "factual",
        ),
    );
    r.push(
        build_example(
            "V04",
            Split::Val,
            "What is the freezing point of water in degrees Celsius?",
            "0",
            "factual",
        ),
    );
    r.push(
        build_example(
            "V05",
            Split::Val,
            "What is the name of the biological process by which plants produce food using sunlight?",
            "photosynthesis",
            "factual",
        ),
    );
    assert(views(r@) =~= val_examples());
    r
}

/// The answer that is expected; the empty text where none is given.
pub open spec fn expected_answer(expected: Option<JsonView>) -> Seq<char> {
    match text_of(opt_member(expected, "answer"@)) {
        Some(answer) => answer,
        None => ""@,
    }
}

/// The result of a response: it passes where it equals the answer, but for white space at its two
/// ends.
pub open spec fn scored_response(
    response: Seq<char>,
    expected: Option<JsonView>,
    example_id: Seq<char>,
    split: Split,
) -> EvaluationResultView {
    let answer = expected_answer(expected);
    let passed = trimmed(response) == answer;
    EvaluationResultView {
        example_id,
        split,
        score: Score {
            bits: if passed {
                ONE
            } else {
                0
            },
        },
        passed: Some(passed),
        feedback: Some(
            if passed {
                "Correct. Trimmed response exactly equals the expected answer '"@ + answer + "'."@
            } else {
                "Incorrect. Expected trimmed response to equal '"@ + answer
                    + "' exactly (case-sensitive), but got: '"@ + prefix(trimmed(response), 200)
                    + "'"@
            },
        ),
        metrics: Map::empty(),
        diagnostics: map![
            "answer_length"@ => unsigned_number(encode_utf8(answer).len()),
            "response_length"@ => unsigned_number(encode_utf8(response).len()),
            "turn_outcome"@ => JsonView::Text(
                if passed {
                    "correct"@
                } else {
                    "incorrect"@
                },
            ),
            "tool_call_count"@ => unsigned_number(0),
            "error_count"@ => unsigned_number(0),
        ],
    }
}

/// Scores a response.
pub fn score_synthetic_example(
    response: &str,
    expected: &Option<Json>,
    example_id: &str,
    split: &Split,
) -> (r: EvaluationResult)
    ensures
        r@ == scored_response(response@, opt_view(*expected), example_id@, *split),
{
    let found: Option<&Json> = match expected {
        Some(value) => value.get("answer"),
        None => None,
    };
    assert(json_view(found) == opt_member(opt_view(*expected), "answer"@));
    let answer: String = match str_in(found) {
        Some(answer) => answer.clone(),
        None => "".to_string(),
    };
    let trimmed_response: String = trim(response);
    let passed: bool = trimmed_response == answer;
    let feedback: String = if passed {
        concat3(
            "Correct. Trimmed response exactly equals the expected answer '",
            answer.as_str(),
            "'.",
        )
    } else {
        let mut text: String = concat3(
            "Incorrect. Expected trimmed response to equal '",
            answer.as_str(),
            "' exactly (case-sensitive), but got: '",
        );
        text.append(take_chars(trimmed_response.as_str(), 200).as_str());
        text.append("'");
        text
    };
    let ending: &str = if passed {
        "correct"
    } else {
        "incorrect"
    };
    let mut diagnostics: StringMap<Json> = StringMap::new();
    diagnostics.insert(
        "answer_length".to_string(),
        Json::unsigned(answer.as_str().as_bytes().len() as u64),
    );
    diagnostics.insert(
        "response_length".to_string(),
        Json::unsigned(response.as_bytes().len() as u64),
    );
    diagnostics.insert("turn_outcome".to_string(), Json::text(ending));
    diagnostics.insert("tool_call_count".to_string(), Json::unsigned(0));
    diagnostics.insert("error_count".to_string(), Json::unsigned(0));
    EvaluationResult {
        example_id: example_id.to_string(),
        split: *split,
        score: if passed {
            Score::one()
        } else {
            Score::zero()
        },
        passed: Some(passed),
        feedback: Some(feedback),
        metrics: StringMap::new(),
        diagnostics,
    }
}

/// White space around a response does not change its score, and of two responses with different
/// text at most one passes.
pub proof fn scores_ignore_surrounding_space_only(
    a: Seq<char>,
    b: Seq<char>,
    expected: Option<JsonView>,
    example_id: Seq<char>,
    split: Split,
)
    ensures
        trimmed(a) == trimmed(b) ==> scored_response(a, expected, example_id, split).score
            == scored_response(b, expected, example_id, split).score,
        scored_response(a, expected, example_id, split).passed == Some(true)
            && scored_response(b, expected, example_id, split).passed == Some(true) ==> trimmed(a)
            == trimmed(b),
{
}

/// The task. Its provider opens the sessions in which questions are answered.
pub struct SyntheticTask<P> {
    pub provider: P,
    pub train: Vec<HarnessExample>,
    pub val: Vec<HarnessExample>,
}

/// The candidate that the optimization starts with.
pub open spec fn synthetic_seed() -> CandidateView {
    let component = MutableComponentView {
        id: SYNTH_QA_COMPONENT_ID@,
        description: Some("System instruction injected as the guidance prompt slot"@),
        value: ComponentValueView::Text { text: SYNTH_SEED_PROMPT@ },
        constraints: ComponentConstraintsView {
            max_chars: Some(2000),
            preserve_terms: Seq::empty(),
            forbidden_terms: Seq::empty(),
            format_hint: Some("System instruction for question answering"@),
        },
    };
    CandidateView {
        id: "seed"@,
        parent_id: None,
        mutable_components: map![SYNTH_QA_COMPONENT_ID@ => component],
        immutable_context: Map::empty(),
        metadata: map!["project"@ => JsonView::Text("synth-qa"@)],
    }
}

impl<P> SyntheticTask<P> {
    /// The task with the given provider.
    pub fn new(provider: P) -> (r: Self)
        ensures
            r.provider == provider,
            views(r.train@) == train_examples(),
            views(r.val@) == val_examples(),
    {
        SyntheticTask { provider, train: build_train_examples(), val: build_val_examples() }
    }

    /// The candidate that the optimization starts with.
    pub fn seed_candidate(&self) -> (r: Candidate)
        ensures
            r@ == synthetic_seed(),
    {
        let component = MutableComponent {
            id: SYNTH_QA_COMPONENT_ID.to_string(),
            description: Some(
                "System instruction injected as the guidance prompt slot".to_string(),
            ),
            value: ComponentValue::Text { text: SYNTH_SEED_PROMPT.to_string() },
            constraints: ComponentConstraints {
                max_chars: Some(2000),
                preserve_terms: Vec::new(),
                forbidden_terms: Vec::new(),
                format_hint: Some("System instruction for question answering".to_string()),
            },
        };
        assert(views(component.constraints.preserve_terms@) =~= Seq::empty());
        assert(views(component.constraints.forbidden_terms@) =~= Seq::empty());
        let mut mutable_components: StringMap<MutableComponent> = StringMap::new();
        mutable_components.insert(SYNTH_QA_COMPONENT_ID.to_string(), component);
        let mut metadata: StringMap<Json> = StringMap::new();
        metadata.insert("project".to_string(), Json::text("synth-qa"));
        let r = Candidate {
            id: "seed".to_string(),
            parent_id: None,
            mutable_components,
            immutable_context: StringMap::new(),
            metadata,
        };
        assert(r@ =~= synthetic_seed());
        r
    }

    /// The examples to train on.
    pub fn trainset(&self) -> (r: Vec<HarnessExample>)
        ensures
            views(r@) == views(self.train@),
    {
        duplicate_all(self.train.as_slice())
    }

    /// The examples to validate on.
    pub fn valset(&self) -> (r: Vec<HarnessExample>)
        ensures
            views(r@) == views(self.val@),
    {
        duplicate_all(self.val.as_slice())
    }
}

/// The instruction of a candidate and the question of an example, or what is wrong with them.
pub open spec fn instruction_and_question(
    candidate: CandidateView,
    example: HarnessExampleView,
) -> Result<(Seq<char>, Seq<char>), HarnessOptErrorView> {
    let id = SYNTH_QA_COMPONENT_ID@;
    if !candidate.mutable_components.contains_key(id) {
        Err(HarnessOptErrorView::Harness("missing component '"@ + id + "'"@))
    } else {
        match candidate.mutable_components[id].value {
            ComponentValueView::Text { text } => match text_of(
                member(example.input, "question"@),
            ) {
                Some(question) => Ok((text, question)),
                None => Err(
                    HarnessOptErrorView::Harness(
                        "example '"@ + example.id + "' is missing input['question']"@,
                    ),
                ),
            },
            _ => Err(
                HarnessOptErrorView::Harness(
                    "component '"@ + id + "' must be ComponentValue::Text"@,
                ),
            ),
        }
    }
}

/// Takes the instruction and the question that a session is opened with.
pub fn prepare_session(candidate: &Candidate, example: &HarnessExample) -> (r: Result<
    (String, String),
    HarnessOptError,
>)
    ensures
        match r {
            Ok(pair) => instruction_and_question(candidate@, example@) == Ok::<
                _,
                HarnessOptErrorView,
            >((pair.0@, pair.1@)),
            Err(error) => instruction_and_question(candidate@, example@) == Err::<
                (Seq<char>, Seq<char>),
                _,
            >(error@),
        },
{
    let component: &MutableComponent = match candidate.mutable_components.get(
        SYNTH_QA_COMPONENT_ID,
    ) {
        Some(component) => component,
        None => {
            return Err(
                HarnessOptError::Harness(
                    concat3("missing component '", SYNTH_QA_COMPONENT_ID, "'"),
                ),
            );
        },
    };
    let instruction: String = match &component.value {
        ComponentValue::Text { text } => text.clone(),
        _ => {
            return Err(
                HarnessOptError::Harness(
                    concat3(
                        "component '",
                        SYNTH_QA_COMPONENT_ID,
                        "' must be ComponentValue::Text",
                    ),
                ),
            );
        },
    };
    match str_in(example.input.get("question")) {
        Some(question) => Ok((instruction, question.clone())),
        None => Err(
            HarnessOptError::Harness(
                concat3("example '", example.id.as_str(), "' is missing input['question']"),
            ),
        ),
    }
}

/// The model that a session uses: the one that the run names, or `default_model`.
pub fn session_model(task_lm: &str, default_model: &str) -> (r: String)
    ensures
        r@ == if task_lm@.len() == 0 {
            default_model@
        } else {
            task_lm@
        },
{
    if task_lm.unicode_len() == 0 {
        default_model.to_string()
    } else {
        task_lm.to_string()
    }
}

/// The run of an example whose session answered `response`.
pub fn answered_run(example: &HarnessExample, response: &str) -> (r: ExampleRun)
    ensures
        r@ == (ExampleRunView {
            example: example@,
            result: scored_response(
                response@,
                example@.expected,
                example@.id,
                example@.split,
            ),
            trace: None,
            artifacts: no_artifacts(),
            metric_calls: 1,
        }),
{
    ExampleRun {
        example: example.duplicate(),
        result: score_synthetic_example(
            response,
            &example.expected,
            example.id.as_str(),
            &example.split,
        ),
        trace: None,
        artifacts: RunArtifacts::default(),
        metric_calls: 1,
    }
}

} // verus!
