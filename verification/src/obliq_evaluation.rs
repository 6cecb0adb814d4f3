//! The course of the evaluation of a candidate by the retrieval agent.
//!
//! [`ObliqEvaluation`] decides; whoever drives it writes and reads files and runs the command as its
//! actions ask, and hands back what came of it.

use vstd::prelude::*;
use vstd::string::*;

use crate::engine::concat3;
use crate::feedback::countable;
use crate::json::{parse_json_bytes, parsed_bytes, Json, JsonView};
use crate::model::{
    Candidate, CandidateView, ExampleRun, ExampleRunView, HarnessExample, HarnessExampleView,
    HarnessOptError, HarnessOptErrorView, OptimizationRun, OptimizationRunView, TraceRecord,
    TraceRecordView,
};
use crate::obliq::{
    complete_run, docs_of, failed_run, failed_status, judge_output, latest_path, output_of,
    output_paths, run_file, submitted, submitted_run, unsubmitted_run,
    EvaluationPlan, EvaluationPlanView, ObliqHarnessProject, ObliqHarnessProjectView, RunOutput,
    RunOutputView,
};
use crate::score::Score;
use crate::string_map::StringMap;
use crate::text::path_join;
use crate::views::{views, Duplicate};

verus! {

/// What an evaluation waits for.
#[derive(Clone, Debug, PartialEq)]
pub enum ObliqStage {
    /// The command is being run.
    Running(EvaluationPlan),
    /// The name of the latest run is being read.
    ReadingLatest(EvaluationPlan),
    /// The output of the run is being read.
    ReadingOutput { json: String, trace: String },
    /// The trace of the run is being read.
    ReadingTrace { json: String, trace: String, output: RunOutput },
    /// The evaluation has ended.
    Done,
}

/// The view of an [`ObliqStage`].
#[verifier::ext_equal]
pub enum ObliqStageView {
    Running(EvaluationPlanView),
    ReadingLatest(EvaluationPlanView),
    ReadingOutput { json: Seq<char>, trace: Seq<char> },
    ReadingTrace { json: Seq<char>, trace: Seq<char>, output: RunOutputView },
    Done,
}

impl View for ObliqStage {
    type V = ObliqStageView;

    open spec fn view(&self) -> ObliqStageView {
        match self {
            ObliqStage::Running(a) => ObliqStageView::Running(a@),
            ObliqStage::ReadingLatest(a) => ObliqStageView::ReadingLatest(a@),
            ObliqStage::ReadingOutput { json, trace } => ObliqStageView::ReadingOutput {
                json: json@,
                trace: trace@,
            },
            ObliqStage::ReadingTrace { json, trace, output } => ObliqStageView::ReadingTrace {
                json: json@,
                trace: trace@,
                output: output@,
            },
            ObliqStage::Done => ObliqStageView::Done,
        }
    }
}

/// An evaluation of a candidate on an example.
#[derive(Clone, Debug, PartialEq)]
pub struct ObliqEvaluation {
    pub example: HarnessExample,
    /// The relevance judgements of the example.
    pub gold: StringMap<Score>,
    pub stage: ObliqStage,
}

/// The view of an [`ObliqEvaluation`].
#[verifier::ext_equal]
pub struct ObliqEvaluationView {
    pub example: HarnessExampleView,
    pub gold: Map<Seq<char>, Score>,
    pub stage: ObliqStageView,
}

impl View for ObliqEvaluation {
    type V = ObliqEvaluationView;

    open spec fn view(&self) -> ObliqEvaluationView {
        ObliqEvaluationView {
            example: self.example@,
            gold: self.gold@,
            stage: self.stage@,
        }
    }
}

/// What an evaluation asks for.
#[derive(Clone, Debug, PartialEq)]
pub enum ObliqAction {
    /// Make the directories, write the instructions and run the command.
    Launch(EvaluationPlan),
    /// Read the file with the name of the latest run.
    ReadLatest(String),
    /// Read the output of the run.
    ReadOutput(String),
    /// Read the trace of the run, and write the score with three decimal places.
    ReadTrace { path: String, score: Score },
    /// The evaluation is complete.
    Finish(ExampleRun),
    /// The evaluation has failed.
    Fail(HarnessOptError),
}

/// The view of an [`ObliqAction`].
#[verifier::ext_equal]
pub enum ObliqActionView {
    Launch(EvaluationPlanView),
    ReadLatest(Seq<char>),
    ReadOutput(Seq<char>),
    ReadTrace { path: Seq<char>, score: Score },
    Finish(ExampleRunView),
    Fail(HarnessOptErrorView),
}

impl View for ObliqAction {
    type V = ObliqActionView;

    open spec fn view(&self) -> ObliqActionView {
        match self {
            ObliqAction::Launch(a) => ObliqActionView::Launch(a@),
            ObliqAction::ReadLatest(a) => ObliqActionView::ReadLatest(a@),
            ObliqAction::ReadOutput(a) => ObliqActionView::ReadOutput(a@),
            ObliqAction::ReadTrace { path, score } => ObliqActionView::ReadTrace {
                path: path@,
                score: *score,
            },
            ObliqAction::Finish(a) => ObliqActionView::Finish(a@),
            ObliqAction::Fail(a) => ObliqActionView::Fail(a@),
        }
    }
}

/// What came of an action.
#[derive(Clone, Debug, PartialEq)]
pub enum ObliqEvent {
    /// The command ran, and ended with a status.
    Exited { success: bool, status: String },
    /// The command could not be run.
    NotLaunched(String),
    /// The name of the latest run.
    Latest(String),
    /// The output of the run.
    Output(Vec<u8>),
    /// The file could not be read.
    NotRead(String),
    /// The records of the trace, and the score as text.
    Trace { records: Vec<TraceRecord>, ndcg: String },
    /// The action failed otherwise.
    Failed(HarnessOptError),
}

/// The view of an [`ObliqEvent`].
#[verifier::ext_equal]
pub enum ObliqEventView {
    Exited { success: bool, status: Seq<char> },
    NotLaunched(Seq<char>),
    Latest(Seq<char>),
    Output(Seq<u8>),
    NotRead(Seq<char>),
    Trace { records: Seq<TraceRecordView>, ndcg: Seq<char> },
    Failed(HarnessOptErrorView),
}

impl View for ObliqEvent {
    type V = ObliqEventView;

    open spec fn view(&self) -> ObliqEventView {
        match self {
            ObliqEvent::Exited { success, status } => ObliqEventView::Exited {
                success: *success,
                status: status@,
            },
            ObliqEvent::NotLaunched(a) => ObliqEventView::NotLaunched(a@),
            ObliqEvent::Latest(a) => ObliqEventView::Latest(a@),
            ObliqEvent::Output(a) => ObliqEventView::Output(a@),
            ObliqEvent::NotRead(a) => ObliqEventView::NotRead(a@),
            ObliqEvent::Trace { records, ndcg } => ObliqEventView::Trace {
                records: views(records@),
                ndcg: ndcg@,
            },
            ObliqEvent::Failed(a) => ObliqEventView::Failed(a@),
        }
    }
}

/// The error of an event that does not answer the last action.
pub open spec fn unexpected() -> HarnessOptErrorView {
    HarnessOptErrorView::Harness("unexpected event"@)
}

/// An evaluation of a project starts with its plan, or ends at once.
pub open spec fn obliq_start(
    project: ObliqHarnessProjectView,
    run: OptimizationRunView,
    candidate: CandidateView,
    example: HarnessExampleView,
) -> (ObliqEvaluationView, ObliqActionView) {
    let gold = docs_of(project.qrels, example.id);
    match project.plan(run, candidate, example) {
        Ok(plan) => (
            ObliqEvaluationView { example, gold, stage: ObliqStageView::Running(plan) },
            ObliqActionView::Launch(plan),
        ),
        Err(ended) => (
            ObliqEvaluationView { example, gold, stage: ObliqStageView::Done },
            ObliqActionView::Finish(ended),
        ),
    }
}

impl ObliqEvaluationView {
    /// The evaluation in the given stage, asking for the given action.
    pub open spec fn ask(self, stage: ObliqStageView, action: ObliqActionView) -> (
        ObliqEvaluationView,
        ObliqActionView,
    ) {
        (ObliqEvaluationView { stage, ..self }, action)
    }

    /// The evaluation has failed.
    pub open spec fn fail(self, error: HarnessOptErrorView) -> (
        ObliqEvaluationView,
        ObliqActionView,
    ) {
        self.ask(ObliqStageView::Done, ObliqActionView::Fail(error))
    }

    /// After the output was read.
    pub open spec fn after_output(
        self,
        json: Seq<char>,
        trace: Seq<char>,
        parsed: Result<JsonView, Seq<char>>,
    ) -> (ObliqEvaluationView, ObliqActionView) {
        match parsed {
            Err(message) => self.fail(HarnessOptErrorView::Json(message)),
            Ok(value) => if submitted(value) {
                let output = output_of(value);
                self.ask(
                    ObliqStageView::ReadingTrace { json, trace, output },
                    ObliqActionView::ReadTrace { path: trace, score: output.score },
                )
            } else {
                self.ask(
                    ObliqStageView::Done,
                    ObliqActionView::Finish(unsubmitted_run(self.example, value, json, trace)),
                )
            },
        }
    }

    /// The evaluation after an event, and what it asks for next.
    pub open spec fn after(self, event: ObliqEventView) -> (ObliqEvaluationView, ObliqActionView) {
        match (self.stage, event) {
            (_, ObliqEventView::Failed(error)) => self.fail(error),
            (ObliqStageView::Running(plan), ObliqEventView::NotLaunched(error)) => self.fail(
                HarnessOptErrorView::Harness("failed to launch lash-oblique: "@ + error),
            ),
            (ObliqStageView::Running(plan), ObliqEventView::Exited { success, status }) => {
                if success {
                    self.ask(
                        ObliqStageView::ReadingLatest(plan),
                        ObliqActionView::ReadLatest(path_join(plan.output_dir, "_latest"@)),
                    )
                } else {
                    self.ask(
                        ObliqStageView::Done,
                        ObliqActionView::Finish(
                            failed_run(
                                self.example,
                                "lash-oblique exited with status: "@ + status,
                                1,
                            ),
                        ),
                    )
                }
            },
            (ObliqStageView::ReadingLatest(plan), ObliqEventView::NotRead(error)) => self.fail(
                HarnessOptErrorView::Harness("read _latest pointer: "@ + error),
            ),
            (ObliqStageView::ReadingLatest(plan), ObliqEventView::Latest(latest)) => {
                let json = run_file(plan.output_dir, latest, self.example.id, ".json"@);
                let trace = run_file(plan.output_dir, latest, self.example.id, ".trace.jsonl"@);
                self.ask(
                    ObliqStageView::ReadingOutput { json, trace },
                    ObliqActionView::ReadOutput(json),
                )
            },
            (ObliqStageView::ReadingOutput { json, trace }, ObliqEventView::NotRead(error)) => {
                self.fail(
                    HarnessOptErrorView::Harness(
                        "read output JSON "@ + json + ": "@ + error,
                    ),
                )
            },
            (ObliqStageView::ReadingOutput { json, trace }, ObliqEventView::Output(bytes)) => {
                self.after_output(json, trace, parsed_bytes(bytes))
            },
            (
                ObliqStageView::ReadingTrace { json, trace, output },
                ObliqEventView::Trace { records, ndcg },
            ) => self.ask(
                ObliqStageView::Done,
                ObliqActionView::Finish(
                    submitted_run(self.example, output, self.gold, records, ndcg, json, trace),
                ),
            ),
            _ => self.fail(unexpected()),
        }
    }
}

/// A candidate without usable instructions is not run, and costs no metric calls.
pub proof fn unusable_candidates_are_not_run(
    project: ObliqHarnessProjectView,
    run: OptimizationRunView,
    candidate: CandidateView,
    example: HarnessExampleView,
)
    ensures
        match obliq_start(project, run, candidate, example).1 {
            ObliqActionView::Launch(plan) => project.plan(run, candidate, example) == Ok::<
                _,
                ExampleRunView,
            >(plan),
            ObliqActionView::Finish(ended) => {
                &&& project.plan(run, candidate, example) is Err
                &&& ended.metric_calls == 0
                &&& ended.result.score == (Score { bits: 0 })
                &&& ended.result.passed == Some(false)
            },
            _ => false,
        },
{
}

/// A run that is complete is the run of the example that was asked for, and one that the command
/// was run for costs one metric call.
pub proof fn completed_runs_are_of_the_example(state: ObliqEvaluationView, event: ObliqEventView)
    ensures
        state.after(event).1 matches ObliqActionView::Finish(run) ==> {
            &&& run.example == state.example
            &&& run.result.example_id == state.example.id
            &&& run.result.split == state.example.split
            &&& run.metric_calls == 1
        },
        state.after(event).0.example == state.example,
        state.after(event).0.gold == state.gold,
{
}

impl ObliqEvaluation {
    fn ask(self, stage: ObliqStage, action: ObliqAction) -> (r: (ObliqEvaluation, ObliqAction))
        ensures
            (r.0@, r.1@) == self@.ask(stage@, action@),
    {
        (ObliqEvaluation { stage, ..self }, action)
    }

    fn fail(self, error: HarnessOptError) -> (r: (ObliqEvaluation, ObliqAction))
        ensures
            (r.0@, r.1@) == self@.fail(error@),
    {
        self.ask(ObliqStage::Done, ObliqAction::Fail(error))
    }

    /// Starts the evaluation of a candidate on an example.
    pub fn start(
        project: &ObliqHarnessProject,
        run: &OptimizationRun,
        candidate: &Candidate,
        example: &HarnessExample,
    ) -> (r: (ObliqEvaluation, ObliqAction))
        ensures
            (r.0@, r.1@) == obliq_start(project@, run@, candidate@, example@),
    {
        let gold: StringMap<Score> = project.gold(example);
        match project.plan_evaluation(run, candidate, example) {
            Ok(plan) => {
                let copy: EvaluationPlan = plan.duplicate();
                (
                    ObliqEvaluation {
                        example: example.duplicate(),
                        gold,
                        stage: ObliqStage::Running(plan),
                    },
                    ObliqAction::Launch(copy),
                )
            },
            Err(ended) => (
                ObliqEvaluation { example: example.duplicate(), gold, stage: ObliqStage::Done },
                ObliqAction::Finish(ended),
            ),
        }
    }

    /// Goes on with what the output of the run was parsed to, or with the message of the error.
    pub fn take_output(self, json: String, trace: String, parsed: Result<Json, String>) -> (r: (
        ObliqEvaluation,
        ObliqAction,
    ))
        ensures
            (r.0@, r.1@) == self@.after_output(
                json@,
                trace@,
                match parsed {
                    Ok(value) => Ok(value@),
                    Err(message) => Err(message@),
                },
            ),
    {
        match parsed {
            Err(message) => self.fail(HarnessOptError::Json(message)),
            Ok(value) => match judge_output(
                &value,
                &self.example,
                json.as_str(),
                trace.as_str(),
            ) {
                Ok(output) => {
                    let action = ObliqAction::ReadTrace {
                        path: trace.clone(),
                        score: output.score,
                    };
                    self.ask(ObliqStage::ReadingTrace { json, trace, output }, action)
                },
                Err(ended) => self.ask(ObliqStage::Done, ObliqAction::Finish(ended)),
            },
        }
    }

    /// Takes what came of the last action, and says what to do next.
    #[verifier::spinoff_prover]
    #[verifier::rlimit(30)]
    pub fn step(self, event: ObliqEvent) -> (r: (ObliqEvaluation, ObliqAction))
        requires
            event@ matches ObliqEventView::Trace { records, .. } ==> countable(records),
        ensures
            (r.0@, r.1@) == self@.after(event@),
    {
        let ObliqEvaluation { example, gold, stage } = self;
        let state = ObliqEvaluation { example, gold, stage: ObliqStage::Done };
        match (stage, event) {
            (_, ObliqEvent::Failed(error)) => state.fail(error),
            (ObliqStage::Running(_), ObliqEvent::NotLaunched(error)) => {
                let mut text: String = "failed to launch lash-oblique: ".to_string();
                text.append(error.as_str());
                state.fail(HarnessOptError::Harness(text))
            },
            (ObliqStage::Running(plan), ObliqEvent::Exited { success, status }) => {
                if success {
                    let path: String = latest_path(&plan);
                    state.ask(ObliqStage::ReadingLatest(plan), ObliqAction::ReadLatest(path))
                } else {
                    let ended: ExampleRun = failed_status(&state.example, status.as_str());
                    state.ask(ObliqStage::Done, ObliqAction::Finish(ended))
                }
            },
            (ObliqStage::ReadingLatest(_), ObliqEvent::NotRead(error)) => {
                let mut text: String = "read _latest pointer: ".to_string();
                text.append(error.as_str());
                state.fail(HarnessOptError::Harness(text))
            },
            (ObliqStage::ReadingLatest(plan), ObliqEvent::Latest(latest)) => {
                let (json, trace) = output_paths(&plan, latest.as_str(), &state.example);
                let path: String = json.clone();
                state.ask(
                    ObliqStage::ReadingOutput { json, trace },
                    ObliqAction::ReadOutput(path),
                )
            },
            (ObliqStage::ReadingOutput { json, .. }, ObliqEvent::NotRead(error)) => {
                let mut text: String = concat3("read output JSON ", json.as_str(), ": ");
                text.append(error.as_str());
                state.fail(HarnessOptError::Harness(text))
            },
            (ObliqStage::ReadingOutput { json, trace }, ObliqEvent::Output(bytes)) => {
                state.take_output(json, trace, parse_json_bytes(bytes.as_slice()))
            },
            (
                ObliqStage::ReadingTrace { json, trace, output },
                ObliqEvent::Trace { records, ndcg },
            ) => {
                let run: ExampleRun = complete_run(
                    &state.example,
                    &output,
                    &state.gold,
                    records,
                    ndcg.as_str(),
                    json.as_str(),
                    trace.as_str(),
                );
                state.ask(ObliqStage::Done, ObliqAction::Finish(run))
            },
            _ => state.fail(HarnessOptError::Harness("unexpected event".to_string())),
        }
    }
}

} // verus!
