//! Evaluation of a candidate on examples, with a cache of earlier evaluations.
//!
//! [`CachedEvaluation`] decides; whoever drives it looks up, records, stores and evaluates as its
//! actions ask, and hands back what came of it.

use vstd::prelude::*;
use vstd::string::*;

use crate::engine::{concat3, example_run_record, outcome, run_record};
use crate::fingerprint::{candidate_fingerprint, fingerprint};
use crate::json::{unsigned_number, Json, JsonView};
use crate::model::{
    no_artifacts, run_of, split_name, unevaluated, Candidate, CandidateEvaluation,
    CandidateEvaluationView, CandidateView, EvaluationRecord, EvaluationRecordView,
    EvaluationResult, EvaluationResultView, ExampleRun, ExampleRunView, HarnessExample,
    HarnessExampleView, HarnessOptError, HarnessOptErrorView, OptimizationRun,
    OptimizationRunView, RunArtifacts, TraceContext, TraceContextView,
};
use crate::score::Score;
use crate::string_map::{in_order, StringMap};
use crate::text::{decimal, decimal_text};
use crate::views::{duplicate_all, duplicate_opt, lemma_views_push, opt_view, views, Duplicate};

verus! {

/// What an evaluation waits for.
#[derive(Clone, Debug, PartialEq)]
pub enum EvaluationStage {
    /// The next example has been looked up in the cache.
    LookingUp,
    /// The run that the cache had of the next example is being recorded.
    RecordingHit,
    /// The examples that the cache did not have are being evaluated.
    Evaluating,
    /// The run at a place of what was evaluated is being put into the cache.
    Storing { evaluated: CandidateEvaluation, at: usize },
    /// The run at a place of what was evaluated is being recorded.
    RecordingMiss { evaluated: CandidateEvaluation, at: usize },
    /// The evaluation has ended.
    Done,
}

/// The view of an [`EvaluationStage`].
#[verifier::ext_equal]
pub enum EvaluationStageView {
    LookingUp,
    RecordingHit,
    Evaluating,
    Storing { evaluated: CandidateEvaluationView, at: usize },
    RecordingMiss { evaluated: CandidateEvaluationView, at: usize },
    Done,
}

impl View for EvaluationStage {
    type V = EvaluationStageView;

    open spec fn view(&self) -> EvaluationStageView {
        match self {
            EvaluationStage::LookingUp => EvaluationStageView::LookingUp,
            EvaluationStage::RecordingHit => EvaluationStageView::RecordingHit,
            EvaluationStage::Evaluating => EvaluationStageView::Evaluating,
            EvaluationStage::Storing { evaluated, at } => EvaluationStageView::Storing {
                evaluated: evaluated@,
                at: *at,
            },
            EvaluationStage::RecordingMiss { evaluated, at } => EvaluationStageView::RecordingMiss {
                evaluated: evaluated@,
                at: *at,
            },
            EvaluationStage::Done => EvaluationStageView::Done,
        }
    }
}

/// An evaluation of a candidate on examples.
#[derive(Clone, Debug, PartialEq)]
pub struct CachedEvaluation {
    candidate: Candidate,
    fingerprint: String,
    examples: Vec<HarnessExample>,
    /// The number of examples that have been looked up.
    next: usize,
    /// What the cache had.
    evaluation: CandidateEvaluation,
    /// The examples that the cache did not have.
    misses: Vec<HarnessExample>,
    stage: EvaluationStage,
}

/// The view of a [`CachedEvaluation`].
#[verifier::ext_equal]
pub struct CachedEvaluationView {
    pub candidate: CandidateView,
    pub fingerprint: Seq<char>,
    pub examples: Seq<HarnessExampleView>,
    pub next: usize,
    pub evaluation: CandidateEvaluationView,
    pub misses: Seq<HarnessExampleView>,
    pub stage: EvaluationStageView,
}

impl View for CachedEvaluation {
    type V = CachedEvaluationView;

    closed spec fn view(&self) -> CachedEvaluationView {
        CachedEvaluationView {
            candidate: self.candidate@,
            fingerprint: self.fingerprint@,
            examples: views(self.examples@),
            next: self.next,
            evaluation: self.evaluation@,
            misses: views(self.misses@),
            stage: self.stage@,
        }
    }
}

/// What an evaluation asks for.
#[derive(Clone, Debug, PartialEq)]
pub enum EvaluationAction {
    /// Look an example up in the cache.
    LookUp { fingerprint: String, example: HarnessExample },
    /// Record an evaluation.
    Record(EvaluationRecord),
    /// Evaluate the candidate on examples.
    Evaluate { candidate: Candidate, examples: Vec<HarnessExample> },
    /// Put a run into the cache.
    Store { fingerprint: String, run: ExampleRun },
    /// The evaluation is complete.
    Finish(CandidateEvaluation),
    /// The evaluation has failed.
    Fail(HarnessOptError),
}

/// The view of an [`EvaluationAction`].
#[verifier::ext_equal]
pub enum EvaluationActionView {
    LookUp { fingerprint: Seq<char>, example: HarnessExampleView },
    Record(EvaluationRecordView),
    Evaluate { candidate: CandidateView, examples: Seq<HarnessExampleView> },
    Store { fingerprint: Seq<char>, run: ExampleRunView },
    Finish(CandidateEvaluationView),
    Fail(HarnessOptErrorView),
}

impl View for EvaluationAction {
    type V = EvaluationActionView;

    open spec fn view(&self) -> EvaluationActionView {
        match self {
            EvaluationAction::LookUp { fingerprint, example } => EvaluationActionView::LookUp {
                fingerprint: fingerprint@,
                example: example@,
            },
            EvaluationAction::Record(a) => EvaluationActionView::Record(a@),
            EvaluationAction::Evaluate { candidate, examples } => EvaluationActionView::Evaluate {
                candidate: candidate@,
                examples: views(examples@),
            },
            EvaluationAction::Store { fingerprint, run } => EvaluationActionView::Store {
                fingerprint: fingerprint@,
                run: run@,
            },
            EvaluationAction::Finish(a) => EvaluationActionView::Finish(a@),
            EvaluationAction::Fail(a) => EvaluationActionView::Fail(a@),
        }
    }
}

/// What came of an action.
#[derive(Clone, Debug, PartialEq)]
pub enum EvaluationEvent {
    /// What the cache has.
    Cached(Option<ExampleRun>),
    /// The evaluation is recorded.
    Recorded,
    /// The candidate is evaluated.
    Evaluated(CandidateEvaluation),
    /// The run is in the cache.
    Stored,
    /// The action failed.
    Failed(HarnessOptError),
}

/// The view of an [`EvaluationEvent`].
#[verifier::ext_equal]
pub enum EvaluationEventView {
    Cached(Option<ExampleRunView>),
    Recorded,
    Evaluated(CandidateEvaluationView),
    Stored,
    Failed(HarnessOptErrorView),
}

impl View for EvaluationEvent {
    type V = EvaluationEventView;

    open spec fn view(&self) -> EvaluationEventView {
        match self {
            EvaluationEvent::Cached(a) => EvaluationEventView::Cached(opt_view(*a)),
            EvaluationEvent::Recorded => EvaluationEventView::Recorded,
            EvaluationEvent::Evaluated(a) => EvaluationEventView::Evaluated(a@),
            EvaluationEvent::Stored => EvaluationEventView::Stored,
            EvaluationEvent::Failed(a) => EvaluationEventView::Failed(a@),
        }
    }
}

/// Whether an event answers what the stage waits for.
pub open spec fn answers(stage: EvaluationStageView, event: EvaluationEventView) -> bool {
    match event {
        EvaluationEventView::Cached(_) => stage is LookingUp,
        EvaluationEventView::Recorded => stage is RecordingHit || stage is RecordingMiss,
        EvaluationEventView::Evaluated(_) => stage is Evaluating,
        EvaluationEventView::Stored => stage is Storing,
        EvaluationEventView::Failed(_) => stage !is Done,
    }
}

/// A run as it is taken from the cache.
pub open spec fn cached_run(run: ExampleRunView) -> ExampleRunView {
    ExampleRunView { metric_calls: 0, ..run }
}

/// The evaluation with a run.
pub open spec fn with_run(
    evaluation: CandidateEvaluationView,
    run: ExampleRunView,
) -> CandidateEvaluationView {
    let id = run.result.example_id;
    CandidateEvaluationView {
        candidate: evaluation.candidate,
        evaluations: evaluation.evaluations.insert(id, run.result),
        traces: match run.trace {
            Some(trace) => evaluation.traces.insert(id, trace),
            None => evaluation.traces,
        },
        artifacts: evaluation.artifacts.insert(id, run.artifacts),
        metric_calls: evaluation.metric_calls.insert(id, run.metric_calls),
    }
}

/// The evaluation with what was evaluated anew.
pub open spec fn merged(
    evaluation: CandidateEvaluationView,
    evaluated: CandidateEvaluationView,
) -> CandidateEvaluationView {
    CandidateEvaluationView {
        candidate: evaluation.candidate,
        evaluations: evaluation.evaluations.union_prefer_right(evaluated.evaluations),
        traces: evaluation.traces.union_prefer_right(evaluated.traces),
        artifacts: evaluation.artifacts.union_prefer_right(evaluated.artifacts),
        metric_calls: evaluation.metric_calls.union_prefer_right(evaluated.metric_calls),
    }
}

/// The first example with the given id.
pub open spec fn example_with_id(examples: Seq<HarnessExampleView>, id: Seq<char>) -> Option<
    HarnessExampleView,
>
    decreases examples.len(),
{
    if examples.len() == 0 {
        None
    } else if examples[0].id == id {
        Some(examples[0])
    } else {
        example_with_id(examples.drop_first(), id)
    }
}

impl CachedEvaluationView {
    /// What is asked for once `next` examples have been looked up.
    pub open spec fn ask(self) -> (CachedEvaluationView, EvaluationActionView) {
        if self.next < self.examples.len() {
            (
                CachedEvaluationView { stage: EvaluationStageView::LookingUp, ..self },
                EvaluationActionView::LookUp {
                    fingerprint: self.fingerprint,
                    example: self.examples[self.next as int],
                },
            )
        } else if self.misses.len() == 0 {
            (
                CachedEvaluationView { stage: EvaluationStageView::Done, ..self },
                EvaluationActionView::Finish(self.evaluation),
            )
        } else {
            (
                CachedEvaluationView { stage: EvaluationStageView::Evaluating, ..self },
                EvaluationActionView::Evaluate {
                    candidate: self.candidate,
                    examples: self.misses,
                },
            )
        }
    }

    /// The run at a place of what was evaluated, in the order of the ids of the examples; there is
    /// none where the example is not one of those asked for.
    pub open spec fn run_at(self, evaluated: CandidateEvaluationView, at: int) -> Option<
        ExampleRunView,
    > {
        match example_with_id(self.examples, in_order(evaluated.evaluations.dom())[at]) {
            Some(example) => Some(run_of(evaluated, example, 1)),
            None => None,
        }
    }

    /// What is asked for once `at` of the runs that were evaluated have been recorded.
    pub open spec fn keep(self, evaluated: CandidateEvaluationView, at: usize) -> (
        CachedEvaluationView,
        EvaluationActionView,
    ) {
        if at < in_order(evaluated.evaluations.dom()).len() {
            match self.run_at(evaluated, at as int) {
                Some(run) => (
                    CachedEvaluationView {
                        stage: EvaluationStageView::Storing { evaluated, at },
                        ..self
                    },
                    EvaluationActionView::Store { fingerprint: self.fingerprint, run },
                ),
                None => (
                    CachedEvaluationView { stage: EvaluationStageView::Done, ..self },
                    EvaluationActionView::Fail(
                        HarnessOptErrorView::Store("evaluated unknown example"@),
                    ),
                ),
            }
        } else {
            let evaluation = merged(self.evaluation, evaluated);
            (
                CachedEvaluationView { stage: EvaluationStageView::Done, evaluation, ..self },
                EvaluationActionView::Finish(evaluation),
            )
        }
    }

    /// The state after an event, and what is asked for next.
    pub open spec fn after(self, event: EvaluationEventView) -> (
        CachedEvaluationView,
        EvaluationActionView,
    ) {
        match (self.stage, event) {
            (_, EvaluationEventView::Failed(error)) => (
                CachedEvaluationView { stage: EvaluationStageView::Done, ..self },
                EvaluationActionView::Fail(error),
            ),
            (EvaluationStageView::LookingUp, EvaluationEventView::Cached(Some(run))) => {
                let hit = cached_run(run);
                (
                    CachedEvaluationView {
                        stage: EvaluationStageView::RecordingHit,
                        evaluation: with_run(self.evaluation, hit),
                        ..self
                    },
                    EvaluationActionView::Record(
                        run_record(self.candidate, self.fingerprint, hit, true),
                    ),
                )
            },
            (EvaluationStageView::LookingUp, _) => CachedEvaluationView {
                misses: self.misses.push(self.examples[self.next as int]),
                next: (self.next + 1) as usize,
                ..self
            }.ask(),
            (EvaluationStageView::RecordingHit, _) => CachedEvaluationView {
                next: (self.next + 1) as usize,
                ..self
            }.ask(),
            (EvaluationStageView::Evaluating, EvaluationEventView::Evaluated(evaluated)) => self.keep(
                evaluated,
                0,
            ),
            (EvaluationStageView::Storing { evaluated, at }, _) => (
                CachedEvaluationView {
                    stage: EvaluationStageView::RecordingMiss { evaluated, at },
                    ..self
                },
                EvaluationActionView::Record(
                    run_record(
                        self.candidate,
                        self.fingerprint,
                        self.run_at(evaluated, at as int)->0,
                        false,
                    ),
                ),
            ),
            (EvaluationStageView::RecordingMiss { evaluated, at }, _) => self.keep(
                evaluated,
                (at + 1) as usize,
            ),
            _ => self.ask(),
        }
    }

    /// What holds of every state that an evaluation reaches: the stage fits what has been done.
    pub open spec fn consistent(self) -> bool {
        match self.stage {
            EvaluationStageView::LookingUp | EvaluationStageView::RecordingHit => self.next
                < self.examples.len(),
            EvaluationStageView::Storing { evaluated, at }
            | EvaluationStageView::RecordingMiss { evaluated, at } => {
                &&& at < in_order(evaluated.evaluations.dom()).len()
                &&& self.run_at(evaluated, at as int) is Some
            },
            _ => true,
        }
    }
}

/// The state in which an evaluation starts.
pub open spec fn evaluation_start(
    candidate: CandidateView,
    examples: Seq<HarnessExampleView>,
) -> CachedEvaluationView {
    CachedEvaluationView {
        candidate,
        fingerprint: fingerprint(candidate),
        examples,
        next: 0,
        evaluation: unevaluated(candidate),
        misses: Seq::empty(),
        stage: EvaluationStageView::LookingUp,
    }
}

fn find_example(examples: &Vec<HarnessExample>, id: &String) -> (r: Option<usize>)
    ensures
        match r {
            Some(i) => i < examples@.len() && example_with_id(views(examples@), id@) == Some(
                examples@[i as int]@,
            ) && examples@[i as int]@.id == id@,
            None => example_with_id(views(examples@), id@) is None,
        },
{
    let ghost all = views(examples@);
    let mut i: usize = 0;
    assert(all.skip(0) =~= all);
    while i < examples.len()
        invariant
            i <= examples@.len(),
            all == views(examples@),
            example_with_id(all, id@) == example_with_id(all.skip(i as int), id@),
        decreases examples@.len() - i,
    {
        assert(all.skip(i as int)[0] == all[i as int]);
        assert(all.skip(i as int).drop_first() =~= all.skip(i + 1));
        if examples[i].id == *id {
            return Some(i);
        }
        i = i + 1;
    }
    None
}

impl CachedEvaluation {
    /// Starts the evaluation of a candidate.
    pub fn start(candidate: &Candidate, examples: &[HarnessExample]) -> (r: (
        CachedEvaluation,
        EvaluationAction,
    ))
        ensures
            (r.0@, r.1@) == evaluation_start(candidate@, views(examples@)).ask(),
            r.0@.consistent(),
    {
        let state = CachedEvaluation {
            candidate: candidate.duplicate(),
            fingerprint: match candidate_fingerprint(candidate) {
                Ok(text) => text,
                Err(error) => {
                    return (
                        CachedEvaluation {
                            candidate: candidate.duplicate(),
                            fingerprint: String::new(),
                            examples: Vec::new(),
                            next: 0,
                            evaluation: CandidateEvaluation::new(candidate.duplicate()),
                            misses: Vec::new(),
                            stage: EvaluationStage::Done,
                        },
                        EvaluationAction::Fail(error),
                    );
                },
            },
            examples: duplicate_all(examples),
            next: 0,
            evaluation: CandidateEvaluation::new(candidate.duplicate()),
            misses: Vec::new(),
            stage: EvaluationStage::LookingUp,
        };
        assert(state@ =~= evaluation_start(candidate@, views(examples@)));
        state.ask()
    }

    fn ask(self) -> (r: (CachedEvaluation, EvaluationAction))
        ensures
            (r.0@, r.1@) == self@.ask(),
            r.0@.consistent(),
    {
        assert(self@.examples.len() == self.examples@.len());
        assert(self@.misses.len() == self.misses@.len());
        if self.next < self.examples.len() {
            let action = EvaluationAction::LookUp {
                fingerprint: self.fingerprint.clone(),
                example: self.examples[self.next].duplicate(),
            };
            (CachedEvaluation { stage: EvaluationStage::LookingUp, ..self }, action)
        } else if self.misses.len() == 0 {
            let action = EvaluationAction::Finish(self.evaluation.duplicate());
            (CachedEvaluation { stage: EvaluationStage::Done, ..self }, action)
        } else {
            let action = EvaluationAction::Evaluate {
                candidate: self.candidate.duplicate(),
                examples: duplicate_all(self.misses.as_slice()),
            };
            (CachedEvaluation { stage: EvaluationStage::Evaluating, ..self }, action)
        }
    }

    fn find_run(&self, evaluated: &CandidateEvaluation, at: usize) -> (r: Option<ExampleRun>)
        requires
            at < in_order(evaluated@.evaluations.dom()).len(),
        ensures
            opt_view(r) == self@.run_at(evaluated@, at as int),
    {
        match find_example(&self.examples, evaluated.evaluations.key_at(at)) {
            Some(i) => evaluated.example_run(&self.examples[i], 1),
            None => None,
        }
    }

    fn keep(self, evaluated: CandidateEvaluation, at: usize) -> (r: (
        CachedEvaluation,
        EvaluationAction,
    ))
        ensures
            (r.0@, r.1@) == self@.keep(evaluated@, at),
            r.0@.consistent(),
    {
        let n: usize = evaluated.evaluations.len();
        if at < n {
            match self.find_run(&evaluated, at) {
                Some(run) => {
                    let action = EvaluationAction::Store {
                        fingerprint: self.fingerprint.clone(),
                        run,
                    };
                    (
                        CachedEvaluation {
                            stage: EvaluationStage::Storing { evaluated, at },
                            ..self
                        },
                        action,
                    )
                },
                None => (
                    CachedEvaluation { stage: EvaluationStage::Done, ..self },
                    EvaluationAction::Fail(
                        HarnessOptError::Store("evaluated unknown example".to_string()),
                    ),
                ),
            }
        } else {
            let mut evaluation: CandidateEvaluation = self.evaluation.duplicate();
            evaluation.evaluations.extend(evaluated.evaluations);
            evaluation.traces.extend(evaluated.traces);
            evaluation.artifacts.extend(evaluated.artifacts);
            evaluation.metric_calls.extend(evaluated.metric_calls);
            let action = EvaluationAction::Finish(evaluation.duplicate());
            (CachedEvaluation { stage: EvaluationStage::Done, evaluation, ..self }, action)
        }
    }

    /// Takes what came of the last action, and says what to do next.
    pub fn step(self, event: EvaluationEvent) -> (r: (CachedEvaluation, EvaluationAction))
        requires
            self@.consistent(),
            answers(self@.stage, event@),
        ensures
            (r.0@, r.1@) == self@.after(event@),
            r.0@.consistent(),
    {
        let n: usize = self.examples.len();
        assert(self@.examples.len() == n);
        match event {
            EvaluationEvent::Failed(error) => (
                CachedEvaluation { stage: EvaluationStage::Done, ..self },
                EvaluationAction::Fail(error),
            ),
            EvaluationEvent::Cached(Some(run)) => {
                let hit = ExampleRun { metric_calls: 0, ..run };
                let record: EvaluationRecord = example_run_record(
                    &self.candidate,
                    self.fingerprint.as_str(),
                    &hit,
                    true,
                );
                let evaluation: CandidateEvaluation = add_run(self.evaluation.duplicate(), hit);
                (
                    CachedEvaluation {
                        stage: EvaluationStage::RecordingHit,
                        evaluation,
                        ..self
                    },
                    EvaluationAction::Record(record),
                )
            },
            EvaluationEvent::Cached(None) => {
                let mut misses: Vec<HarnessExample> = duplicate_all(self.misses.as_slice());
                let example: HarnessExample = self.examples[self.next].duplicate();
                proof {
                    lemma_views_push(misses@, example);
                }
                misses.push(example);
                let next: usize = self.next + 1;
                CachedEvaluation { misses, next, ..self }.ask()
            },
            EvaluationEvent::Recorded => match self.stage {
                EvaluationStage::RecordingMiss { ref evaluated, at } => {
                    let evaluated: CandidateEvaluation = evaluated.duplicate();
                    let n: usize = evaluated.evaluations.len();
                    assert(at < n);
                    self.keep(evaluated, at + 1)
                },
                _ => {
                    let next: usize = self.next + 1;
                    CachedEvaluation { next, ..self }.ask()
                },
            },
            EvaluationEvent::Evaluated(evaluated) => self.keep(evaluated, 0),
            EvaluationEvent::Stored => match self.stage {
                EvaluationStage::Storing { ref evaluated, at } => {
                    let evaluated: CandidateEvaluation = evaluated.duplicate();
                    match self.find_run(&evaluated, at) {
                        Some(run) => {
                            let record: EvaluationRecord = example_run_record(
                                &self.candidate,
                                self.fingerprint.as_str(),
                                &run,
                                false,
                            );
                            (
                                CachedEvaluation {
                                    stage: EvaluationStage::RecordingMiss { evaluated, at },
                                    ..self
                                },
                                EvaluationAction::Record(record),
                            )
                        },
                        None => self.ask(),
                    }
                },
                _ => self.ask(),
            },
        }
    }
}

fn add_run(evaluation: CandidateEvaluation, run: ExampleRun) -> (r: CandidateEvaluation)
    ensures
        r@ == with_run(evaluation@, run@),
{
    let mut r: CandidateEvaluation = evaluation;
    let id: String = run.result.example_id.clone();
    r.evaluations.insert(id.clone(), run.result);
    if let Some(trace) = run.trace {
        r.traces.insert(id.clone(), trace);
    }
    r.artifacts.insert(id.clone(), run.artifacts);
    r.metric_calls.insert(id, run.metric_calls);
    r
}

/// The state after the first examples have been looked up and `cached` came back, hits being
/// recorded.
pub open spec fn looked_up(
    state: CachedEvaluationView,
    cached: Seq<Option<ExampleRunView>>,
) -> CachedEvaluationView
    decreases cached.len(),
{
    if cached.len() == 0 {
        state.ask().0
    } else {
        let answered = looked_up(state, cached.drop_last()).after(
            EvaluationEventView::Cached(cached.last()),
        ).0;
        if cached.last() is Some {
            answered.after(EvaluationEventView::Recorded).0
        } else {
            answered
        }
    }
}

/// The examples of which the cache had nothing.
pub open spec fn missed(
    examples: Seq<HarnessExampleView>,
    cached: Seq<Option<ExampleRunView>>,
) -> Seq<HarnessExampleView>
    decreases cached.len(),
{
    if cached.len() == 0 {
        Seq::empty()
    } else {
        let before = missed(examples, cached.drop_last());
        if cached.last() is None {
            before.push(examples[cached.len() - 1])
        } else {
            before
        }
    }
}

/// What the cache had.
pub open spec fn hits(
    candidate: CandidateView,
    cached: Seq<Option<ExampleRunView>>,
) -> CandidateEvaluationView
    decreases cached.len(),
{
    if cached.len() == 0 {
        unevaluated(candidate)
    } else {
        let before = hits(candidate, cached.drop_last());
        match cached.last() {
            Some(run) => with_run(before, cached_run(run)),
            None => before,
        }
    }
}

/// Every example is looked up once, in order. What the cache has is taken over, and what it does
/// not have is evaluated: nothing where the cache has everything, and otherwise the examples that
/// it does not have and no others.
pub proof fn only_misses_are_evaluated(
    candidate: CandidateView,
    examples: Seq<HarnessExampleView>,
    cached: Seq<Option<ExampleRunView>>,
)
    requires
        cached.len() <= examples.len() <= usize::MAX,
    ensures
        ({
            let state = looked_up(evaluation_start(candidate, examples), cached);
            let missing = missed(examples, cached);
            &&& state.candidate == candidate
            &&& state.examples == examples
            &&& state.fingerprint == fingerprint(candidate)
            &&& state.next == cached.len()
            &&& state.misses == missing
            &&& state.evaluation == hits(candidate, cached)
            &&& cached.len() < examples.len() ==> state.stage is LookingUp
            &&& cached.len() == examples.len() ==> {
                &&& state.ask().0 == state
                &&& state.ask().1 == if missing.len() == 0 {
                    EvaluationActionView::Finish(hits(candidate, cached))
                } else {
                    EvaluationActionView::Evaluate { candidate, examples: missing }
                }
            }
        }),
    decreases cached.len(),
{
    if cached.len() > 0 {
        only_misses_are_evaluated(candidate, examples, cached.drop_last());
    }
}

/// What comes from the cache costs no metric calls.
pub proof fn hits_cost_nothing(
    candidate: CandidateView,
    cached: Seq<Option<ExampleRunView>>,
    id: Seq<char>,
)
    requires
        hits(candidate, cached).metric_calls.contains_key(id),
    ensures
        hits(candidate, cached).metric_calls[id] == 0,
    decreases cached.len(),
{
    if cached.len() > 0 {
        let before = hits(candidate, cached.drop_last());
        if before.metric_calls.contains_key(id) {
            hits_cost_nothing(candidate, cached.drop_last(), id);
        }
    }
}

/// A recorded evaluation is counted as a hit without calls, or as a miss with one call or more.
pub proof fn records_count_calls(
    candidate: CandidateView,
    fingerprint: Seq<char>,
    run: ExampleRunView,
    cache_hit: bool,
)
    ensures
        ({
            let record = run_record(candidate, fingerprint, run, cache_hit);
            &&& record.cache_hit == cache_hit
            &&& cache_hit ==> record.metric_calls == 0
            &&& !cache_hit ==> record.metric_calls >= 1 && record.metric_calls
                >= run.metric_calls
        }),
{
}

/// An event changes neither the candidate nor its fingerprint nor the examples, and the evaluation
/// has ended exactly when its action says that it is complete or has failed.
pub proof fn evaluations_keep_their_subject(
    state: CachedEvaluationView,
    event: EvaluationEventView,
)
    requires
        state.consistent(),
        answers(state.stage, event),
    ensures
        ({
            let (next, action) = state.after(event);
            &&& next.candidate == state.candidate
            &&& next.fingerprint == state.fingerprint
            &&& next.examples == state.examples
            &&& next.evaluation.candidate == state.evaluation.candidate
            &&& next.stage is Done <==> action is Finish || action is Fail
        }),
{
}

/// The runs of a candidate, one after the other; of two runs of an example the later counts.
pub open spec fn collected(
    candidate: CandidateView,
    runs: Seq<ExampleRunView>,
) -> CandidateEvaluationView
    decreases runs.len(),
{
    if runs.len() == 0 {
        unevaluated(candidate)
    } else {
        with_run(collected(candidate, runs.drop_last()), runs.last())
    }
}

/// The runs before the first failure, or all of them.
pub open spec fn all_runs(
    outcomes: Seq<Result<ExampleRunView, HarnessOptErrorView>>,
) -> Result<Seq<ExampleRunView>, HarnessOptErrorView>
    decreases outcomes.len(),
{
    if outcomes.len() == 0 {
        Ok(Seq::empty())
    } else {
        match all_runs(outcomes.drop_last()) {
            Err(error) => Err(error),
            Ok(runs) => match outcomes.last() {
                Ok(run) => Ok(runs.push(run)),
                Err(error) => Err(error),
            },
        }
    }
}

/// The outcomes of evaluations.
pub open spec fn outcomes_of(outcomes: Seq<Result<ExampleRun, HarnessOptError>>) -> Seq<
    Result<ExampleRunView, HarnessOptErrorView>,
> {
    outcomes.map_values(|r: Result<ExampleRun, HarnessOptError>| outcome(r))
}

/// Gathers the runs of a candidate, in the order of the examples. The first failure is the failure
/// of the whole.
pub fn gather_runs(
    candidate: Candidate,
    outcomes: Vec<Result<ExampleRun, HarnessOptError>>,
) -> (r: Result<CandidateEvaluation, HarnessOptError>)
    ensures
        outcome(r) == match all_runs(outcomes_of(outcomes@)) {
            Ok(runs) => Ok::<CandidateEvaluationView, HarnessOptErrorView>(
                collected(candidate@, runs),
            ),
            Err(error) => Err(error),
        },
{
    let ghost all = outcomes_of(outcomes@);
    let ghost subject = candidate@;
    let mut evaluation: CandidateEvaluation = CandidateEvaluation::new(candidate);
    let ghost mut runs: Seq<ExampleRunView> = Seq::empty();
    let mut i: usize = 0;
    while i < outcomes.len()
        invariant
            i <= outcomes@.len(),
            all == outcomes_of(outcomes@),
            subject == candidate@,
            all_runs(all.take(i as int)) == Ok::<Seq<ExampleRunView>, HarnessOptErrorView>(runs),
            evaluation@ == collected(subject, runs),
        decreases outcomes@.len() - i,
    {
        assert(all.take(i + 1).drop_last() =~= all.take(i as int));
        match &outcomes[i] {
            Ok(run) => {
                proof {
                    assert(runs.push(run@).drop_last() =~= runs);
                    runs = runs.push(run@);
                }
                evaluation = add_run(evaluation, run.duplicate());
            },
            Err(error) => {
                proof {
                    lemma_failure_stays(all, i + 1);
                }
                return Err(error.duplicate());
            },
        }
        i = i + 1;
    }
    assert(all.take(i as int) =~= all);
    Ok(evaluation)
}

proof fn lemma_failure_stays(
    outcomes: Seq<Result<ExampleRunView, HarnessOptErrorView>>,
    n: int,
)
    requires
        0 <= n <= outcomes.len(),
        all_runs(outcomes.take(n)) is Err,
    ensures
        all_runs(outcomes) == all_runs(outcomes.take(n)),
    decreases outcomes.len() - n,
{
    if n < outcomes.len() {
        assert(outcomes.take(n + 1).drop_last() =~= outcomes.take(n));
        lemma_failure_stays(outcomes, n + 1);
    } else {
        assert(outcomes.take(n) =~= outcomes);
    }
}

/// The context of the evaluation of a candidate on an example.
pub open spec fn example_context(
    run: OptimizationRunView,
    candidate: CandidateView,
    example: HarnessExampleView,
) -> TraceContextView {
    TraceContextView {
        run_id: Some(run.run_id),
        experiment_id: Some(run.experiment_id),
        candidate_id: Some(candidate.id),
        candidate_parent_id: candidate.parent_id,
        example_id: Some(example.id),
        split: Some(split_name(example.split)),
        metadata: Map::empty(),
    }
}

/// Makes the context of the evaluation of a candidate on an example.
pub fn trace_context(run: &OptimizationRun, candidate: &Candidate, example: &HarnessExample) -> (r:
    TraceContext)
    ensures
        r@ == example_context(run@, candidate@, example@),
{
    TraceContext {
        run_id: Some(run.run_id.clone()),
        experiment_id: Some(run.experiment_id.clone()),
        candidate_id: Some(candidate.id.clone()),
        candidate_parent_id: duplicate_opt(&candidate.parent_id),
        example_id: Some(example.id.clone()),
        split: Some(example.split.as_str().to_string()),
        metadata: StringMap::new(),
    }
}

/// How many examples are evaluated at a time: at least one.
pub fn concurrency(run: &OptimizationRun) -> (r: usize)
    ensures
        r == if run@.config.max_concurrency > 1 {
            run@.config.max_concurrency
        } else {
            1
        },
{
    if run.config.max_concurrency > 1 {
        run.config.max_concurrency
    } else {
        1
    }
}

/// The run of an example that took longer than `timeout_secs`: it failed, at the cost of one
/// metric call.
pub open spec fn timed_out(example: HarnessExampleView, timeout_secs: u64) -> ExampleRunView {
    ExampleRunView {
        example,
        result: EvaluationResultView {
            example_id: example.id,
            split: example.split,
            score: Score { bits: 0 },
            passed: Some(false),
            feedback: Some(
                "TIMEOUT: agent did not complete within "@ + decimal(timeout_secs as nat) + "s"@,
            ),
            metrics: Map::empty(),
            diagnostics: map![
                "turn_outcome"@ => JsonView::Text("timeout"@),
                "timeout_secs"@ => unsigned_number(timeout_secs as nat),
            ],
        },
        trace: None,
        artifacts: no_artifacts(),
        metric_calls: 1,
    }
}

/// Makes the run of an example that took longer than `timeout_secs`.
pub fn timeout_run(example: &HarnessExample, timeout_secs: u64) -> (r: ExampleRun)
    ensures
        r@ == timed_out(example@, timeout_secs),
{
    let mut diagnostics: StringMap<Json> = StringMap::new();
    diagnostics.insert("turn_outcome".to_string(), Json::text("timeout"));
    diagnostics.insert("timeout_secs".to_string(), Json::unsigned(timeout_secs));
    ExampleRun {
        example: example.duplicate(),
        result: EvaluationResult {
            example_id: example.id.clone(),
            split: example.split,
            score: Score::zero(),
            passed: Some(false),
            feedback: Some(
                concat3(
                    "TIMEOUT: agent did not complete within ",
                    decimal_text(timeout_secs).as_str(),
                    "s",
                ),
            ),
            metrics: StringMap::new(),
            diagnostics,
        },
        trace: None,
        artifacts: RunArtifacts::default(),
        metric_calls: 1,
    }
}

/// What became of the evaluation of an example.
pub enum ExampleOutcome {
    /// The run was cancelled before the evaluation started.
    Cancelled,
    /// The evaluation took longer than the given number of seconds.
    TimedOut(u64),
    /// The evaluation ended.
    Completed(Result<ExampleRun, HarnessOptError>),
    /// The task of the evaluation broke off, with the given message.
    Broken(String),
}

/// The run of an example, or the failure that ends the evaluation of the candidate.
pub fn settle_example(example: &HarnessExample, ended: ExampleOutcome) -> (r: Result<
    ExampleRun,
    HarnessOptError,
>)
    ensures
        outcome(r) == match ended {
            ExampleOutcome::Cancelled => Err::<ExampleRunView, HarnessOptErrorView>(
                HarnessOptErrorView::Cancelled,
            ),
            ExampleOutcome::TimedOut(secs) => Ok(timed_out(example@, secs)),
            ExampleOutcome::Completed(run) => outcome(run),
            ExampleOutcome::Broken(text) => Err(HarnessOptErrorView::Harness(text@)),
        },
{
    match ended {
        ExampleOutcome::Cancelled => Err(HarnessOptError::Cancelled),
        ExampleOutcome::TimedOut(secs) => Ok(timeout_run(example, secs)),
        ExampleOutcome::Completed(run) => run,
        ExampleOutcome::Broken(text) => Err(HarnessOptError::Harness(text)),
    }
}

} // verus!
