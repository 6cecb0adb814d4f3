//! The course of an optimization run.
//!
//! [`HarnessOptimization`] decides; whoever drives it loads, stores, evaluates and proposes as its
//! actions ask, and hands back what came of it.

use vstd::prelude::*;
use vstd::string::*;

use crate::engine::{
    apply_proposal_with_suffix, batch, batches_hold_only_given_examples, fresh_uuid,
    greatest_generation, next_component_cursor, next_cursor, next_generation, parent_index,
    proposals_set_lineage, proposed, scope_error, scoped_proposals_change_selected_components,
    select_batch, select_components, select_parent, selected_components, uuid_text,
    validate_patch_scope,
};
use crate::fingerprint::{candidate_fingerprint, fingerprint};
use crate::json::{str_in, text_of};
use crate::model::{
    entry, runs_for, Candidate, CandidateEvaluation, CandidateEvaluationView, CandidateProposal,
    CandidateProposalView, CandidateRecord, CandidateRecordView, CandidateView, ComponentSelection,
    EvidenceBatch, EvidenceBatchView, HarnessExample, HarnessExampleView, HarnessOptError,
    HarnessOptErrorView, OptimizationConfig, OptimizationConfigView, OptimizationRun,
    OptimizationRunView, OptimizationState, OptimizationStateView, ProposalRecord,
    ProposalRecordView, StoreStats, StoreStatsView, StrategyRequest, StrategyRequestView,
};
use crate::score::Score;
use crate::string_map::in_order;
use crate::text::{decimal, decimal_text, join_path, path_join};
use crate::views::{
    duplicate_all, duplicate_opt, lemma_take_next, lemma_views_push, opt_view, views, Duplicate,
};

verus! {

/// What is known of the candidates at the start of an iteration.
#[derive(Clone, Debug, PartialEq)]
pub struct Survey {
    pub evaluated: Vec<CandidateEvaluation>,
    /// The place of the candidate with the best mean score.
    pub best: Option<usize>,
    /// The frontier that the configuration asks for.
    pub frontier: Vec<CandidateEvaluation>,
}

/// The view of a [`Survey`].
#[verifier::ext_equal]
pub struct SurveyView {
    pub evaluated: Seq<CandidateEvaluationView>,
    pub best: Option<usize>,
    pub frontier: Seq<CandidateEvaluationView>,
}

impl View for Survey {
    type V = SurveyView;

    open spec fn view(&self) -> SurveyView {
        SurveyView {
            evaluated: views(self.evaluated@),
            best: self.best,
            frontier: views(self.frontier@),
        }
    }
}

/// Two candidates that complement each other, and the candidate that has the parts of both.
#[derive(Clone, Debug, PartialEq)]
pub struct MergePlan {
    pub left: Candidate,
    pub right: Candidate,
    pub merged: Candidate,
}

/// The view of a [`MergePlan`].
#[verifier::ext_equal]
pub struct MergePlanView {
    pub left: CandidateView,
    pub right: CandidateView,
    pub merged: CandidateView,
}

impl View for MergePlan {
    type V = MergePlanView;

    open spec fn view(&self) -> MergePlanView {
        MergePlanView {
            left: self.left@,
            right: self.right@,
            merged: self.merged@,
        }
    }
}

/// An attempt to improve on a parent.
#[derive(Clone, Debug, PartialEq)]
pub struct Attempt {
    pub parent: Candidate,
    pub record: CandidateRecord,
    pub selected: Vec<String>,
    pub batch: Vec<HarnessExample>,
    pub frontier: Vec<CandidateEvaluation>,
}

/// The view of an [`Attempt`].
#[verifier::ext_equal]
pub struct AttemptView {
    pub parent: CandidateView,
    pub record: CandidateRecordView,
    pub selected: Seq<Seq<char>>,
    pub batch: Seq<HarnessExampleView>,
    pub frontier: Seq<CandidateEvaluationView>,
}

impl View for Attempt {
    type V = AttemptView;

    open spec fn view(&self) -> AttemptView {
        AttemptView {
            parent: self.parent@,
            record: self.record@,
            selected: views(self.selected@),
            batch: views(self.batch@),
            frontier: views(self.frontier@),
        }
    }
}

/// A proposal for a parent, and how the candidate that it made did beside the parent.
#[derive(Clone, Debug, PartialEq)]
pub struct Reflection {
    pub attempt: Attempt,
    pub proposal: CandidateProposal,
    pub candidate: Candidate,
    pub before: Score,
    pub after: Score,
}

/// The view of a [`Reflection`].
#[verifier::ext_equal]
pub struct ReflectionView {
    pub attempt: AttemptView,
    pub proposal: CandidateProposalView,
    pub candidate: CandidateView,
    pub before: Score,
    pub after: Score,
}

impl View for Reflection {
    type V = ReflectionView;

    open spec fn view(&self) -> ReflectionView {
        ReflectionView {
            attempt: self.attempt@,
            proposal: self.proposal@,
            candidate: self.candidate@,
            before: self.before,
            after: self.after,
        }
    }
}

/// A merge, and how the merged candidate did beside the better of the two.
#[derive(Clone, Debug, PartialEq)]
pub struct MergeTrial {
    pub plan: MergePlan,
    pub sample: Vec<HarnessExample>,
    pub before: Score,
    pub after: Score,
}

/// The view of a [`MergeTrial`].
#[verifier::ext_equal]
pub struct MergeTrialView {
    pub plan: MergePlanView,
    pub sample: Seq<HarnessExampleView>,
    pub before: Score,
    pub after: Score,
}

impl View for MergeTrial {
    type V = MergeTrialView;

    open spec fn view(&self) -> MergeTrialView {
        MergeTrialView {
            plan: self.plan@,
            sample: views(self.sample@),
            before: self.before,
            after: self.after,
        }
    }
}

/// What a run waits for.
#[derive(Clone, Debug, PartialEq)]
pub enum Phase {
    CreatingDir,
    InitializingRun,
    LoadingRun,
    CountingCandidates,
    StoringSeed,
    EvaluatingSeed,
    FindingGeneration,
    CheckingCancellation,
    CheckingBudget,
    Surveying,
    FindingParentRecord { parent: Candidate, frontier: Vec<CandidateEvaluation> },
    EvaluatingParent(Attempt),
    RecordingSkip,
    Proposing { attempt: Attempt, before: Score },
    EvaluatingProposal {
        attempt: Attempt,
        before: Score,
        proposal: CandidateProposal,
        candidate: Candidate,
    },
    BudgetingProposal(Reflection),
    StoringProposal(Reflection),
    ValidatingProposal(Reflection),
    RecordingProposal { accepted: bool },
    NotifyingAccepted,
    FindingMerge,
    EvaluatingLeft { plan: MergePlan, sample: Vec<HarnessExample> },
    EvaluatingRight { plan: MergePlan, sample: Vec<HarnessExample>, left: Score },
    EvaluatingMerged { plan: MergePlan, sample: Vec<HarnessExample>, left: Score, right: Score },
    BudgetingMerge(MergeTrial),
    StoringMerged(MergeTrial),
    ValidatingMerged(MergeTrial),
    RecordingMerge { accepted: bool },
    NotifyingMerged,
    LoadingState,
    Ended,
}

/// The view of a [`Phase`].
#[verifier::ext_equal]
pub enum PhaseView {
    CreatingDir,
    InitializingRun,
    LoadingRun,
    CountingCandidates,
    StoringSeed,
    EvaluatingSeed,
    FindingGeneration,
    CheckingCancellation,
    CheckingBudget,
    Surveying,
    FindingParentRecord { parent: CandidateView, frontier: Seq<CandidateEvaluationView> },
    EvaluatingParent(AttemptView),
    RecordingSkip,
    Proposing { attempt: AttemptView, before: Score },
    EvaluatingProposal {
        attempt: AttemptView,
        before: Score,
        proposal: CandidateProposalView,
        candidate: CandidateView,
    },
    BudgetingProposal(ReflectionView),
    StoringProposal(ReflectionView),
    ValidatingProposal(ReflectionView),
    RecordingProposal { accepted: bool },
    NotifyingAccepted,
    FindingMerge,
    EvaluatingLeft { plan: MergePlanView, sample: Seq<HarnessExampleView> },
    EvaluatingRight { plan: MergePlanView, sample: Seq<HarnessExampleView>, left: Score },
    EvaluatingMerged { plan: MergePlanView, sample: Seq<HarnessExampleView>, left: Score, right: Score },
    BudgetingMerge(MergeTrialView),
    StoringMerged(MergeTrialView),
    ValidatingMerged(MergeTrialView),
    RecordingMerge { accepted: bool },
    NotifyingMerged,
    LoadingState,
    Ended,
}

impl View for Phase {
    type V = PhaseView;

    open spec fn view(&self) -> PhaseView {
        match self {
            Phase::CreatingDir => PhaseView::CreatingDir,
            Phase::InitializingRun => PhaseView::InitializingRun,
            Phase::LoadingRun => PhaseView::LoadingRun,
            Phase::CountingCandidates => PhaseView::CountingCandidates,
            Phase::StoringSeed => PhaseView::StoringSeed,
            Phase::EvaluatingSeed => PhaseView::EvaluatingSeed,
            Phase::FindingGeneration => PhaseView::FindingGeneration,
            Phase::CheckingCancellation => PhaseView::CheckingCancellation,
            Phase::CheckingBudget => PhaseView::CheckingBudget,
            Phase::Surveying => PhaseView::Surveying,
            Phase::FindingParentRecord { parent, frontier } => PhaseView::FindingParentRecord {
                parent: parent@,
                frontier: views(frontier@),
            },
            Phase::EvaluatingParent(a) => PhaseView::EvaluatingParent(a@),
            Phase::RecordingSkip => PhaseView::RecordingSkip,
            Phase::Proposing { attempt, before } => PhaseView::Proposing {
                attempt: attempt@,
                before: *before,
            },
            Phase::EvaluatingProposal { attempt, before, proposal, candidate } => {
                PhaseView::EvaluatingProposal {
                    attempt: attempt@,
                    before: *before,
                    proposal: proposal@,
                    candidate: candidate@,
                }
            },
            Phase::BudgetingProposal(a) => PhaseView::BudgetingProposal(a@),
            Phase::StoringProposal(a) => PhaseView::StoringProposal(a@),
            Phase::ValidatingProposal(a) => PhaseView::ValidatingProposal(a@),
            Phase::RecordingProposal { accepted } => PhaseView::RecordingProposal {
                accepted: *accepted,
            },
            Phase::NotifyingAccepted => PhaseView::NotifyingAccepted,
            Phase::FindingMerge => PhaseView::FindingMerge,
            Phase::EvaluatingLeft { plan, sample } => PhaseView::EvaluatingLeft {
                plan: plan@,
                sample: views(sample@),
            },
            Phase::EvaluatingRight { plan, sample, left } => PhaseView::EvaluatingRight {
                plan: plan@,
                sample: views(sample@),
                left: *left,
            },
            Phase::EvaluatingMerged { plan, sample, left, right } => PhaseView::EvaluatingMerged {
                plan: plan@,
                sample: views(sample@),
                left: *left,
                right: *right,
            },
            Phase::BudgetingMerge(a) => PhaseView::BudgetingMerge(a@),
            Phase::StoringMerged(a) => PhaseView::StoringMerged(a@),
            Phase::ValidatingMerged(a) => PhaseView::ValidatingMerged(a@),
            Phase::RecordingMerge { accepted } => PhaseView::RecordingMerge { accepted: *accepted },
            Phase::NotifyingMerged => PhaseView::NotifyingMerged,
            Phase::LoadingState => PhaseView::LoadingState,
            Phase::Ended => PhaseView::Ended,
        }
    }
}

/// What a run works on, and how far it has come.
#[derive(Clone, Debug, PartialEq)]
pub struct Course {
    pub run: OptimizationRun,
    pub seed: Candidate,
    pub trainset: Vec<HarnessExample>,
    pub valset: Vec<HarnessExample>,
    pub merge_invocations: usize,
    pub iteration: usize,
}

/// The view of a [`Course`].
#[verifier::ext_equal]
pub struct CourseView {
    pub run: OptimizationRunView,
    pub seed: CandidateView,
    pub trainset: Seq<HarnessExampleView>,
    pub valset: Seq<HarnessExampleView>,
    pub merge_invocations: usize,
    pub iteration: usize,
}

impl View for Course {
    type V = CourseView;

    open spec fn view(&self) -> CourseView {
        CourseView {
            run: self.run@,
            seed: self.seed@,
            trainset: views(self.trainset@),
            valset: views(self.valset@),
            merge_invocations: self.merge_invocations,
            iteration: self.iteration,
        }
    }
}

/// A run of the optimizer.
#[derive(Clone, Debug, PartialEq)]
pub struct HarnessOptimization {
    pub course: Course,
    pub phase: Phase,
}

/// The view of a [`HarnessOptimization`].
#[verifier::ext_equal]
pub struct HarnessOptimizationView {
    pub course: CourseView,
    pub phase: PhaseView,
}

impl View for HarnessOptimization {
    type V = HarnessOptimizationView;

    open spec fn view(&self) -> HarnessOptimizationView {
        HarnessOptimizationView {
            course: self.course@,
            phase: self.phase@,
        }
    }
}

/// What a run asks for.
#[derive(Clone, Debug, PartialEq)]
pub enum OptimizerAction {
    /// Create a directory.
    CreateRunDir(String),
    /// Initialize the store for a run.
    InitRun(OptimizationRun),
    /// Load the run that the store holds.
    LoadRun,
    /// Load the candidates that the store holds.
    LoadCandidates,
    /// Put a candidate into the store.
    UpsertCandidate(CandidateRecord),
    /// Evaluate a candidate on examples.
    Evaluate { candidate: Candidate, examples: Vec<HarnessExample> },
    /// Say whether the run has been cancelled.
    CheckCancelled,
    /// Load the counts of the store.
    LoadStats,
    /// Load the evaluated candidates, and choose among them.
    TakeSurvey,
    /// Ask the strategy for proposals.
    Propose(StrategyRequest),
    /// Put a proposal into the store.
    InsertProposal(ProposalRecord),
    /// Tell the project that a candidate was accepted.
    NotifyAccepted(OptimizationRun),
    /// Find two candidates of the frontier to merge.
    FindMerge { generation: usize },
    /// Load the state of the run.
    LoadState,
    /// The run is complete.
    Finish(OptimizationState),
    /// The run has failed.
    Fail(HarnessOptError),
}

/// The view of an [`OptimizerAction`].
#[verifier::ext_equal]
pub enum OptimizerActionView {
    CreateRunDir(Seq<char>),
    InitRun(OptimizationRunView),
    LoadRun,
    LoadCandidates,
    UpsertCandidate(CandidateRecordView),
    Evaluate { candidate: CandidateView, examples: Seq<HarnessExampleView> },
    CheckCancelled,
    LoadStats,
    TakeSurvey,
    Propose(StrategyRequestView),
    InsertProposal(ProposalRecordView),
    NotifyAccepted(OptimizationRunView),
    FindMerge { generation: usize },
    LoadState,
    Finish(OptimizationStateView),
    Fail(HarnessOptErrorView),
}

impl View for OptimizerAction {
    type V = OptimizerActionView;

    open spec fn view(&self) -> OptimizerActionView {
        match self {
            OptimizerAction::CreateRunDir(a) => OptimizerActionView::CreateRunDir(a@),
            OptimizerAction::InitRun(a) => OptimizerActionView::InitRun(a@),
            OptimizerAction::LoadRun => OptimizerActionView::LoadRun,
            OptimizerAction::LoadCandidates => OptimizerActionView::LoadCandidates,
            OptimizerAction::UpsertCandidate(a) => OptimizerActionView::UpsertCandidate(a@),
            OptimizerAction::Evaluate { candidate, examples } => OptimizerActionView::Evaluate {
                candidate: candidate@,
                examples: views(examples@),
            },
            OptimizerAction::CheckCancelled => OptimizerActionView::CheckCancelled,
            OptimizerAction::LoadStats => OptimizerActionView::LoadStats,
            OptimizerAction::TakeSurvey => OptimizerActionView::TakeSurvey,
            OptimizerAction::Propose(a) => OptimizerActionView::Propose(a@),
            OptimizerAction::InsertProposal(a) => OptimizerActionView::InsertProposal(a@),
            OptimizerAction::NotifyAccepted(a) => OptimizerActionView::NotifyAccepted(a@),
            OptimizerAction::FindMerge { generation } => OptimizerActionView::FindMerge {
                generation: *generation,
            },
            OptimizerAction::LoadState => OptimizerActionView::LoadState,
            OptimizerAction::Finish(a) => OptimizerActionView::Finish(a@),
            OptimizerAction::Fail(a) => OptimizerActionView::Fail(a@),
        }
    }
}

/// What came of an action.
#[derive(Clone, Debug, PartialEq)]
pub enum OptimizerEvent {
    /// The action is done.
    Completed,
    /// The run that the store holds.
    Run(Option<OptimizationRun>),
    /// The candidates that the store holds.
    Candidates(Vec<CandidateRecord>),
    /// The evaluation of a candidate, and the mean of its scores.
    Evaluated { evaluation: CandidateEvaluation, mean: Score },
    /// Whether the run has been cancelled.
    Cancelled(bool),
    /// The counts of the store.
    Stats(StoreStats),
    /// What is known of the candidates.
    Surveyed(Survey),
    /// The proposals of the strategy.
    Proposals(Vec<CandidateProposal>),
    /// The candidates to merge.
    Merge(Option<MergePlan>),
    /// The state of the run.
    State(OptimizationState),
    /// The action failed.
    Failed(HarnessOptError),
}

/// The view of an [`OptimizerEvent`].
#[verifier::ext_equal]
pub enum OptimizerEventView {
    Completed,
    Run(Option<OptimizationRunView>),
    Candidates(Seq<CandidateRecordView>),
    Evaluated { evaluation: CandidateEvaluationView, mean: Score },
    Cancelled(bool),
    Stats(StoreStatsView),
    Surveyed(SurveyView),
    Proposals(Seq<CandidateProposalView>),
    Merge(Option<MergePlanView>),
    State(OptimizationStateView),
    Failed(HarnessOptErrorView),
}

impl View for OptimizerEvent {
    type V = OptimizerEventView;

    open spec fn view(&self) -> OptimizerEventView {
        match self {
            OptimizerEvent::Completed => OptimizerEventView::Completed,
            OptimizerEvent::Run(a) => OptimizerEventView::Run(opt_view(*a)),
            OptimizerEvent::Candidates(a) => OptimizerEventView::Candidates(views(a@)),
            OptimizerEvent::Evaluated { evaluation, mean } => OptimizerEventView::Evaluated {
                evaluation: evaluation@,
                mean: *mean,
            },
            OptimizerEvent::Cancelled(a) => OptimizerEventView::Cancelled(*a),
            OptimizerEvent::Stats(a) => OptimizerEventView::Stats(a@),
            OptimizerEvent::Surveyed(a) => OptimizerEventView::Surveyed(a@),
            OptimizerEvent::Proposals(a) => OptimizerEventView::Proposals(views(a@)),
            OptimizerEvent::Merge(a) => OptimizerEventView::Merge(opt_view(*a)),
            OptimizerEvent::State(a) => OptimizerEventView::State(a@),
            OptimizerEvent::Failed(a) => OptimizerEventView::Failed(a@),
        }
    }
}

/// The run that goes on: the one that the store holds, with the budget and the directory of the
/// caller. A store that came from elsewhere may hold another directory.
pub open spec fn resumed(
    run: OptimizationRunView,
    loaded: Option<OptimizationRunView>,
) -> OptimizationRunView {
    match loaded {
        Some(stored) => OptimizationRunView {
            run_dir: run.run_dir,
            config: OptimizationConfigView {
                max_metric_calls: run.config.max_metric_calls,
                ..stored.config
            },
            ..stored
        },
        None => run,
    }
}

/// The ids of examples.
pub open spec fn ids_of(examples: Seq<HarnessExampleView>) -> Seq<Seq<char>> {
    examples.map_values(|e: HarnessExampleView| e.id)
}

/// The budget that is left of `max`.
pub open spec fn budget_left(max: u64, used: u64) -> u64 {
    if used < max {
        (max - used) as u64
    } else {
        0
    }
}

/// Whether every score of an evaluation is perfect.
pub open spec fn all_perfect(evaluation: CandidateEvaluationView, perfect: Score) -> bool {
    forall|id: Seq<char>| #[trigger]
        evaluation.evaluations.contains_key(id) ==> evaluation.evaluations[id].score.ge(perfect)
}

/// The text that the metadata of a proposal have under `key`.
pub open spec fn metadata_text(proposal: CandidateProposalView, key: Seq<char>) -> Option<
    Seq<char>,
> {
    text_of(entry(proposal.metadata, key))
}

/// The first record of the candidate with the given id.
pub open spec fn record_with_id(records: Seq<CandidateRecordView>, id: Seq<char>) -> Option<
    CandidateRecordView,
>
    decreases records.len(),
{
    if records.len() == 0 {
        None
    } else if records[0].candidate.id == id {
        Some(records[0])
    } else {
        record_with_id(records.drop_first(), id)
    }
}

impl AttemptView {
    /// What the attempt patches and evaluates is what the course says.
    pub open spec fn belongs_to(self, course: CourseView) -> bool {
        &&& self.record.candidate.id == self.parent.id
        &&& self.selected == selected_components(self.record, course.run.config)
        &&& self.batch == batch(
            course.trainset,
            course.run.config.minibatch_size as nat,
            (course.iteration + 1) as nat,
        )
    }

    /// The cursor of a candidate that the attempt makes.
    pub open spec fn cursor(self, course: CourseView) -> int {
        next_cursor(self.record, course.run.config, self.selected.len())
    }
}

impl CourseView {
    /// The run in the given phase, asking for the given action.
    pub open spec fn ask(self, phase: PhaseView, action: OptimizerActionView) -> (
        HarnessOptimizationView,
        OptimizerActionView,
    ) {
        (HarnessOptimizationView { course: self, phase }, action)
    }

    /// The run has failed.
    pub open spec fn fail(self, error: HarnessOptErrorView) -> (
        HarnessOptimizationView,
        OptimizerActionView,
    ) {
        self.ask(PhaseView::Ended, OptimizerActionView::Fail(error))
    }

    /// The start of an iteration.
    pub open spec fn head(self) -> (HarnessOptimizationView, OptimizerActionView) {
        self.ask(PhaseView::CheckingCancellation, OptimizerActionView::CheckCancelled)
    }

    /// The start of the next iteration.
    pub open spec fn next_iteration(self) -> (HarnessOptimizationView, OptimizerActionView) {
        CourseView { iteration: (self.iteration + 1) as usize, ..self }.head()
    }

    /// What follows a merge: it is counted, and the next iteration starts.
    pub open spec fn merge_done(self) -> (HarnessOptimizationView, OptimizerActionView) {
        CourseView {
            merge_invocations: (self.merge_invocations + 1) as usize,
            ..self
        }.next_iteration()
    }

    /// Whether a merge is to be tried.
    pub open spec fn may_merge(self) -> bool {
        self.run.config.use_merge && self.merge_invocations
            < self.run.config.max_merge_invocations
    }

    /// What follows the proposals of an iteration: a merge where one is to be tried.
    pub open spec fn merge_or_next(self) -> (HarnessOptimizationView, OptimizerActionView) {
        if self.may_merge() {
            self.ask(
                PhaseView::FindingMerge,
                OptimizerActionView::FindMerge { generation: self.iteration },
            )
        } else {
            self.next_iteration()
        }
    }

    /// Whether the run is at its end: its budget is used up, or it has had its iterations.
    pub open spec fn exhausted(self, stats: StoreStatsView) -> bool {
        ||| stats.metric_calls_used >= self.run.config.max_metric_calls
        ||| self.run.config.max_iterations is Some && self.iteration
            >= self.run.config.max_iterations->0
    }

    /// The record of the seed.
    pub open spec fn seed_record(self) -> CandidateRecordView {
        CandidateRecordView {
            candidate: self.seed,
            fingerprint: fingerprint(self.seed),
            parent_ids: Seq::empty(),
            generation: 0,
            source_strategy: "seed"@,
            component_cursor: 0,
            discovery_budget: self.run.config.max_metric_calls,
        }
    }

    /// The attempt on a parent.
    pub open spec fn attempt(
        self,
        parent: CandidateView,
        frontier: Seq<CandidateEvaluationView>,
        record: CandidateRecordView,
    ) -> AttemptView {
        AttemptView {
            parent,
            record,
            selected: selected_components(record, self.run.config),
            batch: batch(
                self.trainset,
                self.run.config.minibatch_size as nat,
                (self.iteration + 1) as nat,
            ),
            frontier,
        }
    }

    /// Whether the parent is left as it is because it is perfect on the batch.
    pub open spec fn skips(self, evaluation: CandidateEvaluationView) -> bool {
        self.run.config.skip_perfect_score && all_perfect(
            evaluation,
            self.run.config.perfect_score,
        )
    }

    /// The record of an attempt that was skipped.
    pub open spec fn skip_record(self, attempt: AttemptView, mean: Score) -> ProposalRecordView {
        ProposalRecordView {
            run_id: self.run.run_id,
            generation: self.iteration,
            parent_ids: seq![attempt.parent.id],
            selected_components: attempt.selected,
            minibatch_ids: ids_of(attempt.batch),
            patches: Seq::empty(),
            rlm_prompt_ref: None,
            rlm_output_ref: None,
            before_score: mean,
            after_score: mean,
            accepted: false,
            reason: "skipped_perfect_minibatch"@,
            candidate_id: None,
        }
    }

    /// The request for proposals. It shows the selected components of the parent and no others.
    pub open spec fn request(
        self,
        attempt: AttemptView,
        evaluation: CandidateEvaluationView,
    ) -> StrategyRequestView {
        StrategyRequestView {
            run_id: self.run.run_id,
            experiment_id: self.run.experiment_id,
            generation: self.iteration,
            artifact_dir: path_join(
                path_join(self.run.run_dir, "proposals"@),
                decimal(self.iteration as nat),
            ),
            evidence: EvidenceBatchView {
                parent: CandidateView {
                    mutable_components: attempt.parent.mutable_components.restrict(
                        attempt.selected.to_set(),
                    ),
                    ..attempt.parent
                },
                evaluated_examples: runs_for(evaluation, attempt.batch),
                frontier: attempt.frontier,
            },
        }
    }

    /// The record of a candidate that a proposal made.
    pub open spec fn proposal_candidate(
        self,
        reflection: ReflectionView,
        stats: StoreStatsView,
    ) -> CandidateRecordView {
        CandidateRecordView {
            candidate: reflection.candidate,
            fingerprint: fingerprint(reflection.candidate),
            parent_ids: seq![reflection.attempt.parent.id],
            generation: (self.iteration + 1) as usize,
            source_strategy: "reflection"@,
            component_cursor: reflection.attempt.cursor(self) as usize,
            discovery_budget: budget_left(
                self.run.config.max_metric_calls,
                stats.metric_calls_used,
            ),
        }
    }

    /// The record of a proposal.
    pub open spec fn proposal_record(
        self,
        reflection: ReflectionView,
        accepted: bool,
    ) -> ProposalRecordView {
        ProposalRecordView {
            run_id: self.run.run_id,
            generation: self.iteration,
            parent_ids: seq![reflection.attempt.parent.id],
            selected_components: reflection.attempt.selected,
            minibatch_ids: ids_of(reflection.attempt.batch),
            patches: reflection.proposal.patches,
            rlm_prompt_ref: metadata_text(reflection.proposal, "rlm_prompt_ref"@),
            rlm_output_ref: metadata_text(reflection.proposal, "rlm_output_ref"@),
            before_score: reflection.before,
            after_score: reflection.after,
            accepted,
            reason: if accepted {
                "strict_sum_improved"@
            } else {
                "strict_sum_not_improved"@
            },
            candidate_id: Some(reflection.candidate.id),
        }
    }

    /// The examples that a merge is tried on.
    pub open spec fn merge_sample(self) -> Seq<HarnessExampleView> {
        batch(
            self.valset,
            self.run.config.minibatch_size as nat,
            (self.iteration + 17) as nat,
        )
    }

    /// The record of a merged candidate.
    pub open spec fn merge_candidate(
        self,
        trial: MergeTrialView,
        stats: StoreStatsView,
    ) -> CandidateRecordView {
        CandidateRecordView {
            candidate: trial.plan.merged,
            fingerprint: fingerprint(trial.plan.merged),
            parent_ids: seq![trial.plan.left.id, trial.plan.right.id],
            generation: (self.iteration + 1) as usize,
            source_strategy: "merge"@,
            component_cursor: 0,
            discovery_budget: budget_left(
                self.run.config.max_metric_calls,
                stats.metric_calls_used,
            ),
        }
    }

    /// The record of a merge.
    pub open spec fn merge_record(
        self,
        trial: MergeTrialView,
        accepted: bool,
    ) -> ProposalRecordView {
        ProposalRecordView {
            run_id: self.run.run_id,
            generation: self.iteration,
            parent_ids: seq![trial.plan.left.id, trial.plan.right.id],
            selected_components: in_order(trial.plan.merged.mutable_components.dom()),
            minibatch_ids: ids_of(trial.sample),
            patches: Seq::empty(),
            rlm_prompt_ref: None,
            rlm_output_ref: None,
            before_score: trial.before,
            after_score: trial.after,
            accepted,
            reason: if accepted {
                "merge_subsample_tied_or_improved"@
            } else {
                "merge_subsample_worse"@
            },
            candidate_id: Some(trial.plan.merged.id),
        }
    }

    /// The numbers that the run counts with stay within the machine's.
    pub open spec fn within_limits(self) -> bool {
        &&& self.iteration + self.trainset.len() + 17 <= usize::MAX
        &&& self.iteration + self.valset.len() + 17 <= usize::MAX
    }
}

/// The error of an event that does not answer the last action.
pub open spec fn unexpected() -> HarnessOptErrorView {
    HarnessOptErrorView::Store("unexpected event"@)
}

impl HarnessOptimizationView {
    /// After an action that gives nothing back.
    pub open spec fn after_completed(self) -> (HarnessOptimizationView, OptimizerActionView) {
        let c = self.course;
        match self.phase {
            PhaseView::CreatingDir => c.ask(
                PhaseView::InitializingRun,
                OptimizerActionView::InitRun(c.run),
            ),
            PhaseView::InitializingRun => c.ask(
                PhaseView::LoadingRun,
                OptimizerActionView::LoadRun,
            ),
            PhaseView::StoringSeed => c.ask(
                PhaseView::EvaluatingSeed,
                OptimizerActionView::Evaluate { candidate: c.seed, examples: c.valset },
            ),
            PhaseView::RecordingSkip => c.next_iteration(),
            PhaseView::StoringProposal(reflection) => c.ask(
                PhaseView::ValidatingProposal(reflection),
                OptimizerActionView::Evaluate {
                    candidate: reflection.candidate,
                    examples: c.valset,
                },
            ),
            PhaseView::RecordingProposal { accepted } => if accepted {
                c.ask(
                    PhaseView::NotifyingAccepted,
                    OptimizerActionView::NotifyAccepted(c.run),
                )
            } else {
                c.merge_or_next()
            },
            PhaseView::NotifyingAccepted => c.merge_or_next(),
            PhaseView::StoringMerged(trial) => c.ask(
                PhaseView::ValidatingMerged(trial),
                OptimizerActionView::Evaluate {
                    candidate: trial.plan.merged,
                    examples: c.valset,
                },
            ),
            PhaseView::RecordingMerge { accepted } => if accepted {
                c.ask(
                    PhaseView::NotifyingMerged,
                    OptimizerActionView::NotifyAccepted(c.run),
                )
            } else {
                c.merge_done()
            },
            PhaseView::NotifyingMerged => c.merge_done(),
            _ => c.fail(unexpected()),
        }
    }

    /// After candidates were loaded.
    pub open spec fn after_candidates(self, records: Seq<CandidateRecordView>) -> (
        HarnessOptimizationView,
        OptimizerActionView,
    ) {
        let c = self.course;
        match self.phase {
            PhaseView::CountingCandidates => if records.len() == 0 {
                c.ask(
                    PhaseView::StoringSeed,
                    OptimizerActionView::UpsertCandidate(c.seed_record()),
                )
            } else {
                c.ask(PhaseView::FindingGeneration, OptimizerActionView::LoadCandidates)
            },
            PhaseView::FindingGeneration => CourseView {
                iteration: greatest_generation(records),
                ..c
            }.head(),
            PhaseView::FindingParentRecord { parent, frontier } => match record_with_id(
                records,
                parent.id,
            ) {
                Some(record) => {
                    let attempt = c.attempt(parent, frontier, record);
                    c.ask(
                        PhaseView::EvaluatingParent(attempt),
                        OptimizerActionView::Evaluate {
                            candidate: parent,
                            examples: attempt.batch,
                        },
                    )
                },
                None => c.fail(HarnessOptErrorView::Store("missing selected parent record"@)),
            },
            _ => c.fail(unexpected()),
        }
    }

    /// After the evaluation of a candidate.
    pub open spec fn after_evaluated(self, evaluation: CandidateEvaluationView, mean: Score) -> (
        HarnessOptimizationView,
        OptimizerActionView,
    ) {
        let c = self.course;
        match self.phase {
            PhaseView::EvaluatingSeed => c.ask(
                PhaseView::FindingGeneration,
                OptimizerActionView::LoadCandidates,
            ),
            PhaseView::EvaluatingParent(attempt) => if c.skips(evaluation) {
                c.ask(
                    PhaseView::RecordingSkip,
                    OptimizerActionView::InsertProposal(c.skip_record(attempt, mean)),
                )
            } else {
                c.ask(
                    PhaseView::Proposing { attempt, before: mean },
                    OptimizerActionView::Propose(c.request(attempt, evaluation)),
                )
            },
            PhaseView::EvaluatingProposal { attempt, before, proposal, candidate } => {
                let reflection = ReflectionView {
                    attempt,
                    proposal,
                    candidate,
                    before,
                    after: mean,
                };
                if before.lt(mean) {
                    c.ask(
                        PhaseView::BudgetingProposal(reflection),
                        OptimizerActionView::LoadStats,
                    )
                } else {
                    c.ask(
                        PhaseView::RecordingProposal { accepted: false },
                        OptimizerActionView::InsertProposal(c.proposal_record(reflection, false)),
                    )
                }
            },
            PhaseView::ValidatingProposal(reflection) => c.ask(
                PhaseView::RecordingProposal { accepted: true },
                OptimizerActionView::InsertProposal(c.proposal_record(reflection, true)),
            ),
            PhaseView::EvaluatingLeft { plan, sample } => c.ask(
                PhaseView::EvaluatingRight { plan, sample, left: mean },
                OptimizerActionView::Evaluate { candidate: plan.right, examples: sample },
            ),
            PhaseView::EvaluatingRight { plan, sample, left } => c.ask(
                PhaseView::EvaluatingMerged { plan, sample, left, right: mean },
                OptimizerActionView::Evaluate { candidate: plan.merged, examples: sample },
            ),
            PhaseView::EvaluatingMerged { plan, sample, left, right } => {
                let trial = MergeTrialView {
                    plan,
                    sample,
                    before: left.greater(right),
                    after: mean,
                };
                if mean.ge(left.greater(right)) {
                    c.ask(PhaseView::BudgetingMerge(trial), OptimizerActionView::LoadStats)
                } else {
                    c.ask(
                        PhaseView::RecordingMerge { accepted: false },
                        OptimizerActionView::InsertProposal(c.merge_record(trial, false)),
                    )
                }
            },
            PhaseView::ValidatingMerged(trial) => c.ask(
                PhaseView::RecordingMerge { accepted: true },
                OptimizerActionView::InsertProposal(c.merge_record(trial, true)),
            ),
            _ => c.fail(unexpected()),
        }
    }

    /// After the counts of the store were loaded.
    pub open spec fn after_stats(self, stats: StoreStatsView) -> (
        HarnessOptimizationView,
        OptimizerActionView,
    ) {
        let c = self.course;
        match self.phase {
            PhaseView::CheckingBudget => if c.exhausted(stats) {
                c.ask(PhaseView::LoadingState, OptimizerActionView::LoadState)
            } else {
                c.ask(PhaseView::Surveying, OptimizerActionView::TakeSurvey)
            },
            PhaseView::BudgetingProposal(reflection) => c.ask(
                PhaseView::StoringProposal(reflection),
                OptimizerActionView::UpsertCandidate(c.proposal_candidate(reflection, stats)),
            ),
            PhaseView::BudgetingMerge(trial) => c.ask(
                PhaseView::StoringMerged(trial),
                OptimizerActionView::UpsertCandidate(c.merge_candidate(trial, stats)),
            ),
            _ => c.fail(unexpected()),
        }
    }

    /// After the candidates were surveyed.
    pub open spec fn after_survey(self, survey: SurveyView) -> (
        HarnessOptimizationView,
        OptimizerActionView,
    ) {
        let c = self.course;
        if self.phase !is Surveying {
            c.fail(unexpected())
        } else {
            match parent_index(
                survey.evaluated,
                c.run.config,
                c.iteration as nat,
                survey.best,
            ) {
                Some(i) => c.ask(
                    PhaseView::FindingParentRecord {
                        parent: survey.evaluated[i].candidate,
                        frontier: survey.frontier,
                    },
                    OptimizerActionView::LoadCandidates,
                ),
                None => c.fail(HarnessOptErrorView::Store("optimizer has no candidates"@)),
            }
        }
    }

    /// After the strategy made proposals, of which the first counts. `fresh` ends the id of the
    /// candidate that it makes.
    pub open spec fn after_proposals(
        self,
        proposals: Seq<CandidateProposalView>,
        fresh: Seq<char>,
    ) -> (HarnessOptimizationView, OptimizerActionView) {
        let c = self.course;
        match self.phase {
            PhaseView::Proposing { attempt, before } => if proposals.len() == 0 {
                c.merge_or_next()
            } else {
                let proposal = proposals[0];
                match scope_error(proposal, attempt.selected) {
                    Some(error) => c.fail(error),
                    None => match proposed(attempt.parent, c.iteration as nat, proposal, fresh) {
                        Err(error) => c.fail(error),
                        Ok(candidate) => c.ask(
                            PhaseView::EvaluatingProposal { attempt, before, proposal, candidate },
                            OptimizerActionView::Evaluate { candidate, examples: attempt.batch },
                        ),
                    },
                }
            },
            _ => c.fail(unexpected()),
        }
    }

    /// After candidates to merge were looked for.
    pub open spec fn after_merge(self, plan: Option<MergePlanView>) -> (
        HarnessOptimizationView,
        OptimizerActionView,
    ) {
        let c = self.course;
        if self.phase !is FindingMerge {
            c.fail(unexpected())
        } else {
            match plan {
                Some(plan) => c.ask(
                    PhaseView::EvaluatingLeft { plan, sample: c.merge_sample() },
                    OptimizerActionView::Evaluate {
                        candidate: plan.left,
                        examples: c.merge_sample(),
                    },
                ),
                None => c.next_iteration(),
            }
        }
    }

    /// The run after an event, and what it asks for next. `fresh` ends the id of a candidate that
    /// a proposal makes.
    pub open spec fn after(self, event: OptimizerEventView, fresh: Seq<char>) -> (
        HarnessOptimizationView,
        OptimizerActionView,
    ) {
        let c = self.course;
        match event {
            OptimizerEventView::Failed(error) => c.fail(error),
            OptimizerEventView::Completed => self.after_completed(),
            OptimizerEventView::Run(loaded) => if self.phase is LoadingRun {
                CourseView { run: resumed(c.run, loaded), ..c }.ask(
                    PhaseView::CountingCandidates,
                    OptimizerActionView::LoadCandidates,
                )
            } else {
                c.fail(unexpected())
            },
            OptimizerEventView::Candidates(records) => self.after_candidates(records),
            OptimizerEventView::Evaluated { evaluation, mean } => self.after_evaluated(
                evaluation,
                mean,
            ),
            OptimizerEventView::Cancelled(cancelled) => if self.phase !is CheckingCancellation {
                c.fail(unexpected())
            } else if cancelled {
                c.fail(HarnessOptErrorView::Cancelled)
            } else {
                c.ask(PhaseView::CheckingBudget, OptimizerActionView::LoadStats)
            },
            OptimizerEventView::Stats(stats) => self.after_stats(stats),
            OptimizerEventView::Surveyed(survey) => self.after_survey(survey),
            OptimizerEventView::Proposals(proposals) => self.after_proposals(proposals, fresh),
            OptimizerEventView::Merge(plan) => self.after_merge(plan),
            OptimizerEventView::State(state) => if self.phase is LoadingState {
                c.ask(PhaseView::Ended, OptimizerActionView::Finish(state))
            } else {
                c.fail(unexpected())
            },
        }
    }

    /// The numbers that the run counts with stay within the machine's.
    pub open spec fn within_limits(self) -> bool {
        &&& self.course.within_limits()
        &&& self.course.merge_invocations < usize::MAX
        &&& match self.phase {
            PhaseView::BudgetingProposal(reflection) => reflection.attempt.cursor(self.course)
                <= usize::MAX,
            _ => true,
        }
    }
}

/// The run in the phase in which it starts. Without examples to validate on, those to train on
/// take their place.
pub open spec fn optimization_start(
    run: OptimizationRunView,
    seed: CandidateView,
    trainset: Seq<HarnessExampleView>,
    valset: Seq<HarnessExampleView>,
) -> (HarnessOptimizationView, OptimizerActionView) {
    CourseView {
        run,
        seed,
        trainset,
        valset: if valset.len() == 0 {
            trainset
        } else {
            valset
        },
        merge_invocations: 0,
        iteration: 0,
    }.ask(PhaseView::CreatingDir, OptimizerActionView::CreateRunDir(run.run_dir))
}

fn example_ids(examples: &Vec<HarnessExample>) -> (r: Vec<String>)
    ensures
        views(r@) == ids_of(views(examples@)),
{
    let ghost whole = ids_of(views(examples@));
    let mut r: Vec<String> = Vec::new();
    let mut i: usize = 0;
    assert(views(r@) =~= whole.take(0));
    while i < examples.len()
        invariant
            i <= examples@.len(),
            whole == ids_of(views(examples@)),
            views(r@) == whole.take(i as int),
        decreases examples@.len() - i,
    {
        let id: String = examples[i].id.clone();
        proof {
            lemma_views_push(r@, id);
            lemma_take_next(whole, i as int);
        }
        r.push(id);
        i = i + 1;
    }
    assert(whole.take(i as int) =~= whole);
    r
}

fn is_perfect(evaluation: &CandidateEvaluation, perfect: Score) -> (r: bool)
    ensures
        r == all_perfect(evaluation@, perfect),
{
    let n: usize = evaluation.evaluations.len();
    let ghost keys = in_order(evaluation@.evaluations.dom());
    let mut i: usize = 0;
    while i < n
        invariant
            i <= n,
            n == keys.len(),
            keys == in_order(evaluation@.evaluations.dom()),
            forall|j: int|
                0 <= j < i ==> evaluation@.evaluations[#[trigger] keys[j]].score.ge(perfect),
        decreases n - i,
    {
        if !evaluation.evaluations.value_at(i).score.at_least(&perfect) {
            let key: &String = evaluation.evaluations.key_at(i);
            assert(evaluation@.evaluations.contains_key(key@));
            return false;
        }
        i = i + 1;
    }
    assert forall|id: Seq<char>| #[trigger]
        evaluation@.evaluations.contains_key(id) implies evaluation@.evaluations[id].score.ge(
        perfect,
    ) by {
        assert(evaluation@.evaluations.dom().contains(id));
        assert(keys.contains(id));
        let j = choose|j: int| 0 <= j < keys.len() && keys[j] == id;
        assert(evaluation@.evaluations[keys[j]].score.ge(perfect));
    }
    true
}

fn text_in_metadata(proposal: &CandidateProposal, key: &str) -> (r: Option<String>)
    ensures
        opt_view(r) == metadata_text(proposal@, key@),
{
    match str_in(proposal.metadata.get(key)) {
        Some(text) => Some(text.clone()),
        None => None,
    }
}

fn find_record(records: &Vec<CandidateRecord>, id: &String) -> (r: Option<CandidateRecord>)
    ensures
        opt_view(r) == record_with_id(views(records@), id@),
{
    let ghost all = views(records@);
    let mut i: usize = 0;
    assert(all.skip(0) =~= all);
    while i < records.len()
        invariant
            i <= records@.len(),
            all == views(records@),
            record_with_id(all, id@) == record_with_id(all.skip(i as int), id@),
        decreases records@.len() - i,
    {
        assert(all.skip(i as int)[0] == all[i as int]);
        assert(all.skip(i as int).drop_first() =~= all.skip(i + 1));
        if records[i].candidate.id == *id {
            return Some(records[i].duplicate());
        }
        i = i + 1;
    }
    None
}

fn left_of_budget(max: u64, used: u64) -> (r: u64)
    ensures
        r == budget_left(max, used),
{
    if used < max {
        max - used
    } else {
        0
    }
}

fn fingerprint_of(candidate: &Candidate) -> (r: String)
    ensures
        r@ == fingerprint(candidate@),
{
    match candidate_fingerprint(candidate) {
        Ok(text) => text,
        Err(_) => String::new(),
    }
}

fn single(id: &String) -> (r: Vec<String>)
    ensures
        views(r@) == seq![id@],
{
    let mut r: Vec<String> = Vec::new();
    r.push(id.clone());
    assert(views(r@) =~= seq![id@]);
    r
}

fn pair(first: &String, second: &String) -> (r: Vec<String>)
    ensures
        views(r@) == seq![first@, second@],
{
    let mut r: Vec<String> = Vec::new();
    r.push(first.clone());
    r.push(second.clone());
    assert(views(r@) =~= seq![first@, second@]);
    r
}

impl Course {
    fn ask(self, phase: Phase, action: OptimizerAction) -> (r: (
        HarnessOptimization,
        OptimizerAction,
    ))
        ensures
            (r.0@, r.1@) == self@.ask(phase@, action@),
    {
        (HarnessOptimization { course: self, phase }, action)
    }

    fn fail(self, error: HarnessOptError) -> (r: (HarnessOptimization, OptimizerAction))
        ensures
            (r.0@, r.1@) == self@.fail(error@),
    {
        self.ask(Phase::Ended, OptimizerAction::Fail(error))
    }

    fn fail_unexpected(self) -> (r: (HarnessOptimization, OptimizerAction))
        ensures
            (r.0@, r.1@) == self@.fail(unexpected()),
    {
        self.fail(HarnessOptError::Store("unexpected event".to_string()))
    }

    fn head(self) -> (r: (HarnessOptimization, OptimizerAction))
        ensures
            (r.0@, r.1@) == self@.head(),
    {
        self.ask(Phase::CheckingCancellation, OptimizerAction::CheckCancelled)
    }

    fn next_iteration(self) -> (r: (HarnessOptimization, OptimizerAction))
        requires
            self@.within_limits(),
        ensures
            (r.0@, r.1@) == self@.next_iteration(),
    {
        let iteration: usize = self.iteration + 1;
        Course { iteration, ..self }.head()
    }

    fn merge_done(self) -> (r: (HarnessOptimization, OptimizerAction))
        requires
            self@.within_limits(),
            self@.merge_invocations < usize::MAX,
        ensures
            (r.0@, r.1@) == self@.merge_done(),
    {
        let merge_invocations: usize = self.merge_invocations + 1;
        Course { merge_invocations, ..self }.next_iteration()
    }

    fn merge_or_next(self) -> (r: (HarnessOptimization, OptimizerAction))
        requires
            self@.within_limits(),
        ensures
            (r.0@, r.1@) == self@.merge_or_next(),
    {
        if self.run.config.use_merge && self.merge_invocations
            < self.run.config.max_merge_invocations {
            let generation: usize = self.iteration;
            self.ask(Phase::FindingMerge, OptimizerAction::FindMerge { generation })
        } else {
            self.next_iteration()
        }
    }

    fn seed_record(&self) -> (r: CandidateRecord)
        ensures
            r@ == self@.seed_record(),
    {
        let r = CandidateRecord {
            candidate: self.seed.duplicate(),
            fingerprint: fingerprint_of(&self.seed),
            parent_ids: Vec::new(),
            generation: 0,
            source_strategy: "seed".to_string(),
            component_cursor: 0,
            discovery_budget: self.run.config.max_metric_calls,
        };
        assert(views(r.parent_ids@) =~= Seq::empty());
        r
    }

    fn attempt(
        &self,
        parent: Candidate,
        frontier: Vec<CandidateEvaluation>,
        record: CandidateRecord,
    ) -> (r: Attempt)
        requires
            self@.within_limits(),
        ensures
            r@ == self@.attempt(parent@, views(frontier@), record@),
    {
        let selected: Vec<String> = select_components(&record, &self.run.config);
        let next: usize = self.iteration + 1;
        assert(self@.trainset.len() == self.trainset@.len());
        let batch: Vec<HarnessExample> = select_batch(
            self.trainset.as_slice(),
            self.run.config.minibatch_size,
            next,
        );
        Attempt { parent, record, selected, batch, frontier }
    }

    fn skip_record(&self, attempt: &Attempt, mean: Score) -> (r: ProposalRecord)
        ensures
            r@ == self@.skip_record(attempt@, mean),
    {
        let r = ProposalRecord {
            run_id: self.run.run_id.clone(),
            generation: self.iteration,
            parent_ids: single(&attempt.parent.id),
            selected_components: duplicate_all(attempt.selected.as_slice()),
            minibatch_ids: example_ids(&attempt.batch),
            patches: Vec::new(),
            rlm_prompt_ref: None,
            rlm_output_ref: None,
            before_score: mean,
            after_score: mean,
            accepted: false,
            reason: "skipped_perfect_minibatch".to_string(),
            candidate_id: None,
        };
        assert(views(r.patches@) =~= Seq::empty());
        r
    }

    fn request(&self, attempt: &Attempt, evaluation: &CandidateEvaluation) -> (r: StrategyRequest)
        ensures
            r@ == self@.request(attempt@, evaluation@),
    {
        let proposals: String = join_path(self.run.run_dir.as_str(), "proposals");
        let parent = Candidate {
            id: attempt.parent.id.clone(),
            parent_id: duplicate_opt(&attempt.parent.parent_id),
            mutable_components: attempt.parent.mutable_components.restricted(
                attempt.selected.as_slice(),
            ),
            immutable_context: attempt.parent.immutable_context.duplicate(),
            metadata: attempt.parent.metadata.duplicate(),
        };
        StrategyRequest {
            run_id: self.run.run_id.clone(),
            experiment_id: self.run.experiment_id.clone(),
            generation: self.iteration,
            artifact_dir: join_path(
                proposals.as_str(),
                decimal_text(self.iteration as u64).as_str(),
            ),
            evidence: EvidenceBatch {
                parent,
                evaluated_examples: evaluation.example_runs_for(attempt.batch.as_slice()),
                frontier: duplicate_all(attempt.frontier.as_slice()),
            },
        }
    }

    fn proposal_candidate(&self, reflection: &Reflection, stats: &StoreStats) -> (r:
        CandidateRecord)
        requires
            self@.within_limits(),
            reflection@.attempt.cursor(self@) <= usize::MAX,
        ensures
            r@ == self@.proposal_candidate(reflection@, stats@),
    {
        assert(reflection@.attempt.selected.len() == reflection.attempt.selected@.len());
        CandidateRecord {
            candidate: reflection.candidate.duplicate(),
            fingerprint: fingerprint_of(&reflection.candidate),
            parent_ids: single(&reflection.attempt.parent.id),
            generation: self.iteration + 1,
            source_strategy: "reflection".to_string(),
            component_cursor: next_component_cursor(
                &reflection.attempt.record,
                &self.run.config,
                reflection.attempt.selected.len(),
            ),
            discovery_budget: left_of_budget(
                self.run.config.max_metric_calls,
                stats.metric_calls_used,
            ),
        }
    }

    fn proposal_record(&self, reflection: &Reflection, accepted: bool) -> (r: ProposalRecord)
        ensures
            r@ == self@.proposal_record(reflection@, accepted),
    {
        ProposalRecord {
            run_id: self.run.run_id.clone(),
            generation: self.iteration,
            parent_ids: single(&reflection.attempt.parent.id),
            selected_components: duplicate_all(reflection.attempt.selected.as_slice()),
            minibatch_ids: example_ids(&reflection.attempt.batch),
            patches: duplicate_all(reflection.proposal.patches.as_slice()),
            rlm_prompt_ref: text_in_metadata(&reflection.proposal, "rlm_prompt_ref"),
            rlm_output_ref: text_in_metadata(&reflection.proposal, "rlm_output_ref"),
            before_score: reflection.before,
            after_score: reflection.after,
            accepted,
            reason: if accepted {
                "strict_sum_improved".to_string()
            } else {
                "strict_sum_not_improved".to_string()
            },
            candidate_id: Some(reflection.candidate.id.clone()),
        }
    }

    fn merge_candidate(&self, trial: &MergeTrial, stats: &StoreStats) -> (r: CandidateRecord)
        requires
            self@.within_limits(),
        ensures
            r@ == self@.merge_candidate(trial@, stats@),
    {
        CandidateRecord {
            candidate: trial.plan.merged.duplicate(),
            fingerprint: fingerprint_of(&trial.plan.merged),
            parent_ids: pair(&trial.plan.left.id, &trial.plan.right.id),
            generation: self.iteration + 1,
            source_strategy: "merge".to_string(),
            component_cursor: 0,
            discovery_budget: left_of_budget(
                self.run.config.max_metric_calls,
                stats.metric_calls_used,
            ),
        }
    }

    fn merge_record(&self, trial: &MergeTrial, accepted: bool) -> (r: ProposalRecord)
        ensures
            r@ == self@.merge_record(trial@, accepted),
    {
        let r = ProposalRecord {
            run_id: self.run.run_id.clone(),
            generation: self.iteration,
            parent_ids: pair(&trial.plan.left.id, &trial.plan.right.id),
            selected_components: trial.plan.merged.mutable_components.keys(),
            minibatch_ids: example_ids(&trial.sample),
            patches: Vec::new(),
            rlm_prompt_ref: None,
            rlm_output_ref: None,
            before_score: trial.before,
            after_score: trial.after,
            accepted,
            reason: if accepted {
                "merge_subsample_tied_or_improved".to_string()
            } else {
                "merge_subsample_worse".to_string()
            },
            candidate_id: Some(trial.plan.merged.id.clone()),
        };
        assert(views(r.patches@) =~= Seq::empty());
        r
    }

    fn is_exhausted(&self, stats: &StoreStats) -> (r: bool)
        ensures
            r == self@.exhausted(stats@),
    {
        stats.metric_calls_used >= self.run.config.max_metric_calls || match
            self.run.config.max_iterations {
            Some(max) => self.iteration >= max,
            None => false,
        }
    }
}

/// The run that goes on.
pub fn resume_run(run: OptimizationRun, loaded: Option<OptimizationRun>) -> (r: OptimizationRun)
    ensures
        r@ == resumed(run@, opt_view(loaded)),
{
    match loaded {
        Some(stored) => {
            let config = OptimizationConfig {
                max_metric_calls: run.config.max_metric_calls,
                ..stored.config
            };
            OptimizationRun {
                run_id: stored.run_id,
                experiment_id: stored.experiment_id,
                run_dir: run.run_dir,
                config,
            }
        },
        None => run,
    }
}

impl HarnessOptimization {
    /// Starts a run.
    pub fn start(
        run: OptimizationRun,
        seed: Candidate,
        trainset: Vec<HarnessExample>,
        valset: Vec<HarnessExample>,
    ) -> (r: (HarnessOptimization, OptimizerAction))
        ensures
            (r.0@, r.1@) == optimization_start(run@, seed@, views(trainset@), views(valset@)),
    {
        let dir: String = run.run_dir.clone();
        assert(views(valset@).len() == valset@.len());
        let valset: Vec<HarnessExample> = if valset.len() == 0 {
            duplicate_all(trainset.as_slice())
        } else {
            valset
        };
        Course { run, seed, trainset, valset, merge_invocations: 0, iteration: 0 }.ask(
            Phase::CreatingDir,
            OptimizerAction::CreateRunDir(dir),
        )
    }

    /// Whether the numbers that the run counts with stay within the machine's.
    pub fn fits_machine(&self) -> (r: bool)
        ensures
            r == self@.within_limits(),
    {
        let c: &Course = &self.course;
        let train: usize = c.trainset.len();
        let val: usize = c.valset.len();
        assert(self@.course.trainset.len() == train && self@.course.valset.len() == val);
        let left: usize = usize::MAX - c.iteration;
        left >= 17 && left - 17 >= train && left - 17 >= val && c.merge_invocations < usize::MAX
            && match &self.phase {
            Phase::BudgetingProposal(reflection) => {
                let count: usize = reflection.attempt.selected.len();
                assert(reflection@.attempt.selected.len() == count);
                let step: usize = if count > 1 {
                    count
                } else {
                    1
                };
                c.run.config.component_selection == ComponentSelection::All
                    || reflection.attempt.record.component_cursor <= usize::MAX - step
            },
            _ => true,
        }
    }

    #[verifier::spinoff_prover]
    #[verifier::rlimit(50)]
    fn on_completed(self) -> (r: (HarnessOptimization, OptimizerAction))
        requires
            self@.within_limits(),
        ensures
            (r.0@, r.1@) == self@.after_completed(),
    {
        let HarnessOptimization { course: c, phase } = self;
        match phase {
            Phase::CreatingDir => {
                let run: OptimizationRun = c.run.duplicate();
                c.ask(Phase::InitializingRun, OptimizerAction::InitRun(run))
            },
            Phase::InitializingRun => c.ask(Phase::LoadingRun, OptimizerAction::LoadRun),
            Phase::StoringSeed => {
                let action = OptimizerAction::Evaluate {
                    candidate: c.seed.duplicate(),
                    examples: duplicate_all(c.valset.as_slice()),
                };
                c.ask(Phase::EvaluatingSeed, action)
            },
            Phase::RecordingSkip => c.next_iteration(),
            Phase::StoringProposal(reflection) => {
                let action = OptimizerAction::Evaluate {
                    candidate: reflection.candidate.duplicate(),
                    examples: duplicate_all(c.valset.as_slice()),
                };
                c.ask(Phase::ValidatingProposal(reflection), action)
            },
            Phase::RecordingProposal { accepted } => if accepted {
                let run: OptimizationRun = c.run.duplicate();
                c.ask(Phase::NotifyingAccepted, OptimizerAction::NotifyAccepted(run))
            } else {
                c.merge_or_next()
            },
            Phase::NotifyingAccepted => c.merge_or_next(),
            Phase::StoringMerged(trial) => {
                let action = OptimizerAction::Evaluate {
                    candidate: trial.plan.merged.duplicate(),
                    examples: duplicate_all(c.valset.as_slice()),
                };
                c.ask(Phase::ValidatingMerged(trial), action)
            },
            Phase::RecordingMerge { accepted } => if accepted {
                let run: OptimizationRun = c.run.duplicate();
                c.ask(Phase::NotifyingMerged, OptimizerAction::NotifyAccepted(run))
            } else {
                c.merge_done()
            },
            Phase::NotifyingMerged => c.merge_done(),
            _ => c.fail_unexpected(),
        }
    }

    #[verifier::spinoff_prover]
    #[verifier::rlimit(50)]
    fn on_candidates(self, records: Vec<CandidateRecord>) -> (r: (
        HarnessOptimization,
        OptimizerAction,
    ))
        requires
            self@.within_limits(),
        ensures
            (r.0@, r.1@) == self@.after_candidates(views(records@)),
    {
        assert(views(records@).len() == records@.len());
        let HarnessOptimization { course: c, phase } = self;
        match phase {
            Phase::CountingCandidates => if records.len() == 0 {
                let record: CandidateRecord = c.seed_record();
                c.ask(Phase::StoringSeed, OptimizerAction::UpsertCandidate(record))
            } else {
                c.ask(Phase::FindingGeneration, OptimizerAction::LoadCandidates)
            },
            Phase::FindingGeneration => {
                let iteration: usize = next_generation(records.as_slice());
                Course { iteration, ..c }.head()
            },
            Phase::FindingParentRecord { parent, frontier } => match find_record(
                &records,
                &parent.id,
            ) {
                Some(record) => {
                    let candidate: Candidate = parent.duplicate();
                    let attempt: Attempt = c.attempt(parent, frontier, record);
                    let action = OptimizerAction::Evaluate {
                        candidate,
                        examples: duplicate_all(attempt.batch.as_slice()),
                    };
                    c.ask(Phase::EvaluatingParent(attempt), action)
                },
                None => c.fail(
                    HarnessOptError::Store("missing selected parent record".to_string()),
                ),
            },
            _ => c.fail_unexpected(),
        }
    }

    #[verifier::spinoff_prover]
    #[verifier::rlimit(50)]
    fn on_evaluated(self, evaluation: CandidateEvaluation, mean: Score) -> (r: (
        HarnessOptimization,
        OptimizerAction,
    ))
        requires
            self@.within_limits(),
        ensures
            (r.0@, r.1@) == self@.after_evaluated(evaluation@, mean),
    {
        let HarnessOptimization { course: c, phase } = self;
        match phase {
            Phase::EvaluatingSeed => c.ask(
                Phase::FindingGeneration,
                OptimizerAction::LoadCandidates,
            ),
            Phase::EvaluatingParent(attempt) => if c.run.config.skip_perfect_score && is_perfect(
                &evaluation,
                c.run.config.perfect_score,
            ) {
                let record: ProposalRecord = c.skip_record(&attempt, mean);
                c.ask(Phase::RecordingSkip, OptimizerAction::InsertProposal(record))
            } else {
                let request: StrategyRequest = c.request(&attempt, &evaluation);
                c.ask(
                    Phase::Proposing { attempt, before: mean },
                    OptimizerAction::Propose(request),
                )
            },
            Phase::EvaluatingProposal { attempt, before, proposal, candidate } => {
                let reflection = Reflection { attempt, proposal, candidate, before, after: mean };
                if before.less_than(&mean) {
                    c.ask(Phase::BudgetingProposal(reflection), OptimizerAction::LoadStats)
                } else {
                    let record: ProposalRecord = c.proposal_record(&reflection, false);
                    c.ask(
                        Phase::RecordingProposal { accepted: false },
                        OptimizerAction::InsertProposal(record),
                    )
                }
            },
            Phase::ValidatingProposal(reflection) => {
                let record: ProposalRecord = c.proposal_record(&reflection, true);
                c.ask(
                    Phase::RecordingProposal { accepted: true },
                    OptimizerAction::InsertProposal(record),
                )
            },
            Phase::EvaluatingLeft { plan, sample } => {
                let action = OptimizerAction::Evaluate {
                    candidate: plan.right.duplicate(),
                    examples: duplicate_all(sample.as_slice()),
                };
                c.ask(Phase::EvaluatingRight { plan, sample, left: mean }, action)
            },
            Phase::EvaluatingRight { plan, sample, left } => {
                let action = OptimizerAction::Evaluate {
                    candidate: plan.merged.duplicate(),
                    examples: duplicate_all(sample.as_slice()),
                };
                c.ask(Phase::EvaluatingMerged { plan, sample, left, right: mean }, action)
            },
            Phase::EvaluatingMerged { plan, sample, left, right } => {
                let before: Score = left.max(&right);
                let trial = MergeTrial { plan, sample, before, after: mean };
                if mean.at_least(&before) {
                    c.ask(Phase::BudgetingMerge(trial), OptimizerAction::LoadStats)
                } else {
                    let record: ProposalRecord = c.merge_record(&trial, false);
                    c.ask(
                        Phase::RecordingMerge { accepted: false },
                        OptimizerAction::InsertProposal(record),
                    )
                }
            },
            Phase::ValidatingMerged(trial) => {
                let record: ProposalRecord = c.merge_record(&trial, true);
                c.ask(
                    Phase::RecordingMerge { accepted: true },
                    OptimizerAction::InsertProposal(record),
                )
            },
            _ => c.fail_unexpected(),
        }
    }

    #[verifier::spinoff_prover]
    #[verifier::rlimit(50)]
    fn on_stats(self, stats: StoreStats) -> (r: (HarnessOptimization, OptimizerAction))
        requires
            self@.within_limits(),
        ensures
            (r.0@, r.1@) == self@.after_stats(stats@),
    {
        let HarnessOptimization { course: c, phase } = self;
        match phase {
            Phase::CheckingBudget => if c.is_exhausted(&stats) {
                c.ask(Phase::LoadingState, OptimizerAction::LoadState)
            } else {
                c.ask(Phase::Surveying, OptimizerAction::TakeSurvey)
            },
            Phase::BudgetingProposal(reflection) => {
                let record: CandidateRecord = c.proposal_candidate(&reflection, &stats);
                c.ask(
                    Phase::StoringProposal(reflection),
                    OptimizerAction::UpsertCandidate(record),
                )
            },
            Phase::BudgetingMerge(trial) => {
                let record: CandidateRecord = c.merge_candidate(&trial, &stats);
                c.ask(Phase::StoringMerged(trial), OptimizerAction::UpsertCandidate(record))
            },
            _ => c.fail_unexpected(),
        }
    }

    fn on_survey(self, survey: Survey) -> (r: (HarnessOptimization, OptimizerAction))
        ensures
            (r.0@, r.1@) == self@.after_survey(survey@),
    {
        assert(survey@.evaluated.len() == survey.evaluated@.len());
        let HarnessOptimization { course: c, phase } = self;
        match phase {
            Phase::Surveying => match select_parent(
                survey.evaluated.as_slice(),
                &c.run.config,
                c.iteration,
                survey.best,
            ) {
                Some(i) => {
                    let parent: Candidate = survey.evaluated[i].candidate.duplicate();
                    c.ask(
                        Phase::FindingParentRecord { parent, frontier: survey.frontier },
                        OptimizerAction::LoadCandidates,
                    )
                },
                None => c.fail(HarnessOptError::Store("optimizer has no candidates".to_string())),
            },
            _ => c.fail_unexpected(),
        }
    }

    #[verifier::spinoff_prover]
    #[verifier::rlimit(50)]
    fn on_proposals(self, proposals: Vec<CandidateProposal>, fresh: &str) -> (r: (
        HarnessOptimization,
        OptimizerAction,
    ))
        requires
            self@.within_limits(),
        ensures
            (r.0@, r.1@) == self@.after_proposals(views(proposals@), fresh@),
    {
        assert(views(proposals@).len() == proposals@.len());
        let HarnessOptimization { course: c, phase } = self;
        match phase {
            Phase::Proposing { attempt, before } => {
                if proposals.len() == 0 {
                    return c.merge_or_next();
                }
                let proposal: CandidateProposal = proposals[0].duplicate();
                match validate_patch_scope(&proposal, attempt.selected.as_slice()) {
                    Ok(()) => {},
                    Err(error) => {
                        return c.fail(error);
                    },
                }
                match apply_proposal_with_suffix(&attempt.parent, c.iteration, &proposal, fresh) {
                    Ok(candidate) => {
                        let action = OptimizerAction::Evaluate {
                            candidate: candidate.duplicate(),
                            examples: duplicate_all(attempt.batch.as_slice()),
                        };
                        c.ask(
                            Phase::EvaluatingProposal { attempt, before, proposal, candidate },
                            action,
                        )
                    },
                    Err(error) => c.fail(error),
                }
            },
            _ => c.fail_unexpected(),
        }
    }

    fn on_merge(self, plan: Option<MergePlan>) -> (r: (HarnessOptimization, OptimizerAction))
        requires
            self@.within_limits(),
        ensures
            (r.0@, r.1@) == self@.after_merge(opt_view(plan)),
    {
        let HarnessOptimization { course: c, phase } = self;
        match phase {
            Phase::FindingMerge => match plan {
                Some(plan) => {
                    let next: usize = c.iteration + 17;
                    assert(c@.valset.len() == c.valset@.len());
                    let sample: Vec<HarnessExample> = select_batch(
                        c.valset.as_slice(),
                        c.run.config.minibatch_size,
                        next,
                    );
                    let action = OptimizerAction::Evaluate {
                        candidate: plan.left.duplicate(),
                        examples: duplicate_all(sample.as_slice()),
                    };
                    c.ask(Phase::EvaluatingLeft { plan, sample }, action)
                },
                None => c.next_iteration(),
            },
            _ => c.fail_unexpected(),
        }
    }

    /// Takes what came of the last action, and says what to do next. The id of a candidate that a
    /// proposal makes ends in `fresh`.
    #[verifier::spinoff_prover]
    #[verifier::rlimit(50)]
    pub fn advance(self, event: OptimizerEvent, fresh: &str) -> (r: (
        HarnessOptimization,
        OptimizerAction,
    ))
        requires
            self@.within_limits(),
        ensures
            (r.0@, r.1@) == self@.after(event@, fresh@),
    {
        match event {
            OptimizerEvent::Failed(error) => self.course.fail(error),
            OptimizerEvent::Completed => self.on_completed(),
            OptimizerEvent::Run(loaded) => match self.phase {
                Phase::LoadingRun => {
                    let c: Course = self.course;
                    let run: OptimizationRun = resume_run(c.run, loaded);
                    Course {
                        run,
                        seed: c.seed,
                        trainset: c.trainset,
                        valset: c.valset,
                        merge_invocations: c.merge_invocations,
                        iteration: c.iteration,
                    }.ask(Phase::CountingCandidates, OptimizerAction::LoadCandidates)
                },
                _ => self.course.fail_unexpected(),
            },
            OptimizerEvent::Candidates(records) => self.on_candidates(records),
            OptimizerEvent::Evaluated { evaluation, mean } => self.on_evaluated(evaluation, mean),
            OptimizerEvent::Cancelled(cancelled) => match self.phase {
                Phase::CheckingCancellation => if cancelled {
                    self.course.fail(HarnessOptError::Cancelled)
                } else {
                    self.course.ask(Phase::CheckingBudget, OptimizerAction::LoadStats)
                },
                _ => self.course.fail_unexpected(),
            },
            OptimizerEvent::Stats(stats) => self.on_stats(stats),
            OptimizerEvent::Surveyed(survey) => self.on_survey(survey),
            OptimizerEvent::Proposals(proposals) => self.on_proposals(proposals, fresh),
            OptimizerEvent::Merge(plan) => self.on_merge(plan),
            OptimizerEvent::State(state) => match self.phase {
                Phase::LoadingState => self.course.ask(
                    Phase::Ended,
                    OptimizerAction::Finish(state),
                ),
                _ => self.course.fail_unexpected(),
            },
        }
    }

    /// Takes what came of the last action, and says what to do next. A candidate that a proposal
    /// makes gets a fresh id.
    pub fn step(self, event: OptimizerEvent) -> (r: (HarnessOptimization, OptimizerAction))
        requires
            self@.within_limits(),
        ensures
            exists|fresh: Seq<char>| #[trigger]
                uuid_text(fresh) && (r.0@, r.1@) == self@.after(event@, fresh),
    {
        let fresh: String = fresh_uuid();
        let r = self.advance(event, fresh.as_str());
        assert(uuid_text(fresh@));
        r
    }
}

impl ReflectionView {
    /// What was proposed and evaluated is what the course says: the proposal patches selected
    /// components only, and the candidate is what it makes of the parent.
    pub open spec fn belongs_to(self, course: CourseView) -> bool {
        proposal_belongs(course, self.attempt, self.proposal, self.candidate)
    }
}

/// Whether the proposal patches selected components only, and the candidate is what it makes of
/// the parent.
pub open spec fn proposal_belongs(
    course: CourseView,
    attempt: AttemptView,
    proposal: CandidateProposalView,
    candidate: CandidateView,
) -> bool {
    &&& attempt.belongs_to(course)
    &&& scope_error(proposal, attempt.selected) is None
    &&& exists|fresh: Seq<char>|
        #[trigger] proposed(attempt.parent, course.iteration as nat, proposal, fresh) == Ok::<
            CandidateView,
            HarnessOptErrorView,
        >(candidate)
}

impl HarnessOptimizationView {
    /// What holds of every state that a run reaches.
    pub open spec fn consistent(self) -> bool {
        let c = self.course;
        &&& c.merge_invocations <= c.run.config.max_merge_invocations
        &&& match self.phase {
            PhaseView::CreatingDir | PhaseView::InitializingRun | PhaseView::LoadingRun => {
                c.merge_invocations == 0
            },
            PhaseView::EvaluatingParent(attempt) => attempt.belongs_to(c),
            PhaseView::Proposing { attempt, .. } => attempt.belongs_to(c),
            PhaseView::EvaluatingProposal { attempt, proposal, candidate, .. } => {
                proposal_belongs(c, attempt, proposal, candidate)
            },
            PhaseView::BudgetingProposal(r)
            | PhaseView::StoringProposal(r)
            | PhaseView::ValidatingProposal(r) => r.belongs_to(c) && r.before.lt(r.after),
            PhaseView::FindingMerge
            | PhaseView::RecordingMerge { .. }
            | PhaseView::NotifyingMerged => c.may_merge(),
            PhaseView::EvaluatingLeft { sample, .. } => c.may_merge() && sample
                == c.merge_sample(),
            PhaseView::EvaluatingRight { sample, .. } => c.may_merge() && sample
                == c.merge_sample(),
            PhaseView::EvaluatingMerged { sample, .. } => c.may_merge() && sample
                == c.merge_sample(),
            PhaseView::BudgetingMerge(t)
            | PhaseView::StoringMerged(t)
            | PhaseView::ValidatingMerged(t) => {
                &&& c.may_merge()
                &&& t.sample == c.merge_sample()
                &&& t.after.ge(t.before)
            },
            _ => true,
        }
    }
}

/// A run starts in a consistent state.
pub proof fn runs_start_consistent(
    run: OptimizationRunView,
    seed: CandidateView,
    trainset: Seq<HarnessExampleView>,
    valset: Seq<HarnessExampleView>,
)
    ensures
        optimization_start(run, seed, trainset, valset).0.consistent(),
{
}

/// No event takes a run out of the consistent states.
#[verifier::spinoff_prover]
#[verifier::rlimit(40)]
pub proof fn runs_stay_consistent(
    state: HarnessOptimizationView,
    event: OptimizerEventView,
    fresh: Seq<char>,
)
    requires
        state.consistent(),
        state.within_limits(),
    ensures
        state.after(event, fresh).0.consistent(),
{
    if let OptimizerEventView::Candidates(records) = event {
        if let PhaseView::FindingParentRecord { parent, frontier } = state.phase {
            lemma_record_with_id(records, parent.id);
        }
    }
    if let OptimizerEventView::Proposals(proposals) = event {
        if let PhaseView::Proposing { attempt, before } = state.phase {
            if proposals.len() > 0 {
                let made = proposed(
                    attempt.parent,
                    state.course.iteration as nat,
                    proposals[0],
                    fresh,
                );
                assert(made is Ok ==> made == Ok::<CandidateView, HarnessOptErrorView>(
                    made->Ok_0,
                ));
            }
        }
    }
}

proof fn lemma_record_with_id(records: Seq<CandidateRecordView>, id: Seq<char>)
    ensures
        match record_with_id(records, id) {
            Some(record) => record.candidate.id == id && records.contains(record),
            None => forall|i: int|
                0 <= i < records.len() ==> (#[trigger] records[i]).candidate.id != id,
        },
    decreases records.len(),
{
    if records.len() > 0 {
        let rest = records.drop_first();
        lemma_record_with_id(rest, id);
        match record_with_id(records, id) {
            Some(record) => {
                if records[0].candidate.id == id {
                    assert(records[0] == record);
                } else {
                    let i = choose|i: int| 0 <= i < rest.len() && rest[i] == record;
                    assert(records[i + 1] == record);
                }
            },
            None => {
                assert forall|i: int| 0 <= i < records.len() implies (#[trigger]
                records[i]).candidate.id != id by {
                    if i > 0 {
                        assert(records[i] == rest[i - 1]);
                    }
                }
            },
        }
    }
}

/// A candidate is stored in three cases only: it is the seed of a store without candidates; or it
/// was derived from the selected parent and scored strictly better than it on the batch; or it was
/// merged and scored no worse than the better of the two on the sample.
#[verifier::spinoff_prover]
pub proof fn only_improvements_are_stored(
    state: HarnessOptimizationView,
    event: OptimizerEventView,
    fresh: Seq<char>,
    record: CandidateRecordView,
)
    requires
        state.consistent(),
        state.within_limits(),
        state.after(event, fresh).1 == OptimizerActionView::UpsertCandidate(record),
    ensures
        match state.phase {
            PhaseView::CountingCandidates => {
                &&& event == OptimizerEventView::Candidates(Seq::empty())
                &&& record == state.course.seed_record()
            },
            PhaseView::BudgetingProposal(r) => {
                &&& r.before.lt(r.after)
                &&& record.candidate == r.candidate
                &&& record.parent_ids == seq![r.attempt.parent.id]
                &&& record.candidate.parent_id == Some(r.attempt.parent.id)
                &&& record.generation == state.course.iteration + 1
                &&& record.candidate.immutable_context == r.attempt.parent.immutable_context
                &&& forall|k: Seq<char>| #[trigger]
                    r.attempt.parent.mutable_components.contains_key(k)
                        && !r.attempt.selected.contains(k)
                        ==> record.candidate.mutable_components.contains_key(k)
                        && record.candidate.mutable_components[k]
                        == r.attempt.parent.mutable_components[k]
            },
            PhaseView::BudgetingMerge(t) => {
                &&& t.after.ge(t.before)
                &&& record.candidate == t.plan.merged
                &&& record.parent_ids == seq![t.plan.left.id, t.plan.right.id]
                &&& record.generation == state.course.iteration + 1
            },
            _ => false,
        },
{
    if let PhaseView::BudgetingProposal(r) = state.phase {
        let f = choose|f: Seq<char>|
            #[trigger] proposed(
                r.attempt.parent,
                state.course.iteration as nat,
                r.proposal,
                f,
            ) == Ok::<CandidateView, HarnessOptErrorView>(r.candidate);
        proposals_set_lineage(r.attempt.parent, state.course.iteration as nat, r.proposal, f);
        scoped_proposals_change_selected_components(
            r.attempt.parent,
            state.course.iteration as nat,
            r.proposal,
            f,
            r.attempt.selected,
        );
    }
    if let OptimizerEventView::Candidates(records) = event {
        if records.len() == 0 {
            assert(records =~= Seq::empty());
        }
    }
}

/// A proposal is recorded as accepted exactly when its candidate scored strictly better than the
/// parent, a merge exactly when its candidate scored no worse than the better of the two, and a
/// parent that was left alone never.
#[verifier::spinoff_prover]
pub proof fn records_accept_exactly_the_improvements(
    state: HarnessOptimizationView,
    event: OptimizerEventView,
    fresh: Seq<char>,
    record: ProposalRecordView,
)
    requires
        state.consistent(),
        state.within_limits(),
        state.after(event, fresh).1 == OptimizerActionView::InsertProposal(record),
    ensures
        record.generation == state.course.iteration,
        record.run_id == state.course.run.run_id,
        match state.phase {
            PhaseView::EvaluatingParent(_) => !record.accepted && record.candidate_id is None
                && record.before_score == record.after_score,
            PhaseView::EvaluatingProposal { .. } | PhaseView::ValidatingProposal(_) => {
                record.accepted == record.before_score.lt(record.after_score)
            },
            PhaseView::EvaluatingMerged { .. } | PhaseView::ValidatingMerged(_) => record.accepted
                == record.after_score.ge(record.before_score),
            _ => false,
        },
{
}

/// The strategy is asked only about a parent that is not perfect on the batch, where perfect
/// parents are to be left alone. It is shown the selected components only, and runs of examples
/// of the batch only.
#[verifier::spinoff_prover]
pub proof fn strategy_sees_selected_components_of_imperfect_parents(
    state: HarnessOptimizationView,
    event: OptimizerEventView,
    fresh: Seq<char>,
    request: StrategyRequestView,
)
    requires
        state.consistent(),
        state.within_limits(),
        state.after(event, fresh).1 == OptimizerActionView::Propose(request),
    ensures
        match (state.phase, event) {
            (
                PhaseView::EvaluatingParent(attempt),
                OptimizerEventView::Evaluated { evaluation, mean },
            ) => {
                &&& !(state.course.run.config.skip_perfect_score && all_perfect(
                    evaluation,
                    state.course.run.config.perfect_score,
                ))
                &&& request.evidence.parent.id == attempt.parent.id
                &&& forall|k: Seq<char>| #[trigger]
                    request.evidence.parent.mutable_components.contains_key(k)
                        <==> attempt.parent.mutable_components.contains_key(k)
                        && attempt.selected.contains(k)
                &&& forall|i: int|
                    0 <= i < request.evidence.evaluated_examples.len() ==> attempt.batch.contains(
                        (#[trigger] request.evidence.evaluated_examples[i]).example,
                    )
            },
            _ => false,
        },
{
    if let PhaseView::EvaluatingParent(attempt) = state.phase {
        if let OptimizerEventView::Evaluated { evaluation, mean } = event {
            lemma_runs_are_of_examples(evaluation, attempt.batch);
            assert forall|k: Seq<char>| #[trigger]
                request.evidence.parent.mutable_components.contains_key(k)
                    <==> attempt.parent.mutable_components.contains_key(k)
                    && attempt.selected.contains(k) by {
                assert(attempt.selected.to_set().contains(k) <==> attempt.selected.contains(k));
            }
        }
    }
}

proof fn lemma_runs_are_of_examples(
    evaluation: CandidateEvaluationView,
    examples: Seq<HarnessExampleView>,
)
    ensures
        forall|i: int|
            0 <= i < runs_for(evaluation, examples).len() ==> examples.contains(
                (#[trigger] runs_for(evaluation, examples)[i]).example,
            ),
    decreases examples.len(),
{
    if examples.len() > 0 {
        let before = examples.drop_last();
        lemma_runs_are_of_examples(evaluation, before);
        let runs = runs_for(evaluation, examples);
        let earlier = runs_for(evaluation, before);
        assert forall|i: int| 0 <= i < runs.len() implies examples.contains(
            (#[trigger] runs[i]).example,
        ) by {
            if i < earlier.len() {
                assert(runs[i] == earlier[i]);
                let j = choose|j: int| 0 <= j < before.len() && before[j] == earlier[i].example;
                assert(examples[j] == earlier[i].example);
            } else {
                assert(examples[examples.len() - 1] == runs[i].example);
            }
        }
    }
}

/// A run ends its iterations exactly when its budget is used up or it has had as many as it may
/// have; until then it goes on to the next parent.
pub proof fn runs_end_when_exhausted(
    state: HarnessOptimizationView,
    event: OptimizerEventView,
    fresh: Seq<char>,
)
    requires
        state.within_limits(),
    ensures
        state.after(event, fresh).1 is LoadState <==> {
            &&& state.phase is CheckingBudget
            &&& event matches OptimizerEventView::Stats(stats)
            &&& {
                ||| stats.metric_calls_used >= state.course.run.config.max_metric_calls
                ||| state.course.run.config.max_iterations is Some && state.course.iteration
                    >= state.course.run.config.max_iterations->0
            }
        },
        state.after(event, fresh).1 is TakeSurvey <==> {
            &&& state.phase is CheckingBudget
            &&& event matches OptimizerEventView::Stats(stats)
            &&& stats.metric_calls_used < state.course.run.config.max_metric_calls
            &&& state.course.run.config.max_iterations is Some ==> state.course.iteration
                < state.course.run.config.max_iterations->0
        },
        state.after(event, fresh).1 is Finish ==> state.phase is LoadingState,
{
}

/// There are never more merges than the configuration allows, and none where it does not ask for
/// merges.
#[verifier::spinoff_prover]
pub proof fn merges_are_bounded(
    state: HarnessOptimizationView,
    event: OptimizerEventView,
    fresh: Seq<char>,
)
    requires
        state.consistent(),
        state.within_limits(),
    ensures
        ({
            let (next, action) = state.after(event, fresh);
            &&& next.course.merge_invocations
                <= next.course.run.config.max_merge_invocations
            &&& action is FindMerge ==> state.course.run.config.use_merge
                && state.course.merge_invocations
                < state.course.run.config.max_merge_invocations
            &&& next.course.merge_invocations > state.course.merge_invocations
                ==> (state.phase is RecordingMerge || state.phase is NotifyingMerged)
                && next.course.merge_invocations == state.course.merge_invocations + 1
        }),
{
    runs_stay_consistent(state, event, fresh);
}

/// A run never changes its seed and its examples. Once it has started its iterations, it keeps its
/// configuration, and an event ends an iteration or stays in it.
#[verifier::spinoff_prover]
pub proof fn runs_keep_their_subject(
    state: HarnessOptimizationView,
    event: OptimizerEventView,
    fresh: Seq<char>,
)
    requires
        state.within_limits(),
    ensures
        ({
            let next = state.after(event, fresh).0;
            &&& next.course.seed == state.course.seed
            &&& next.course.trainset == state.course.trainset
            &&& next.course.valset == state.course.valset
            &&& state.phase !is LoadingRun ==> next.course.run == state.course.run
            &&& state.phase !is FindingGeneration ==> next.course.iteration
                == state.course.iteration || next.course.iteration == state.course.iteration + 1
        }),
{
}

/// Candidates are evaluated on examples that the run was given, and on no others.
#[verifier::spinoff_prover]
pub proof fn evaluations_use_given_examples(
    state: HarnessOptimizationView,
    event: OptimizerEventView,
    fresh: Seq<char>,
    candidate: CandidateView,
    examples: Seq<HarnessExampleView>,
)
    requires
        state.consistent(),
        state.within_limits(),
        state.after(event, fresh).1 == (OptimizerActionView::Evaluate { candidate, examples }),
    ensures
        ({
            let c = state.course;
            let size = c.run.config.minibatch_size as nat;
            ||| examples == c.valset
            ||| examples == batch(c.trainset, size, (c.iteration + 1) as nat)
            ||| examples == batch(c.valset, size, (c.iteration + 17) as nat)
        }),
        forall|i: int|
            0 <= i < examples.len() ==> state.course.trainset.contains(#[trigger] examples[i])
                || state.course.valset.contains(examples[i]),
{
    let c = state.course;
    let size = c.run.config.minibatch_size as nat;
    batches_hold_only_given_examples(c.trainset, size, (c.iteration + 1) as nat);
    batches_hold_only_given_examples(c.valset, size, (c.iteration + 17) as nat);
    assert forall|i: int| 0 <= i < examples.len() implies state.course.trainset.contains(
        #[trigger] examples[i],
    ) || state.course.valset.contains(examples[i]) by {
        if examples == c.valset {
            assert(c.valset.contains(c.valset[i]));
        }
    }
}

/// A run that is resumed keeps what the store holds of it, but for the budget and the directory,
/// which are the caller's.
pub proof fn resumed_runs_use_budget_and_directory_of_the_caller(
    run: OptimizationRunView,
    stored: OptimizationRunView,
)
    ensures
        ({
            let r = resumed(run, Some(stored));
            &&& r.run_dir == run.run_dir
            &&& r.config.max_metric_calls == run.config.max_metric_calls
            &&& r.run_id == stored.run_id
            &&& r.experiment_id == stored.experiment_id
            &&& r.config == (OptimizationConfigView {
                max_metric_calls: run.config.max_metric_calls,
                ..stored.config
            })
        }),
        resumed(run, None) == run,
{
}

/// What an action fails with, the run fails with.
pub proof fn failures_end_the_run(
    state: HarnessOptimizationView,
    error: HarnessOptErrorView,
    fresh: Seq<char>,
)
    ensures
        state.after(OptimizerEventView::Failed(error), fresh).0.phase is Ended,
        state.after(OptimizerEventView::Failed(error), fresh).1 == OptimizerActionView::Fail(error),
{
}

/// A run after events, each with the end of the id that a candidate would get.
pub open spec fn driven(
    state: HarnessOptimizationView,
    events: Seq<(OptimizerEventView, Seq<char>)>,
) -> HarnessOptimizationView
    decreases events.len(),
{
    if events.len() == 0 {
        state
    } else {
        driven(state, events.drop_last()).after(events.last().0, events.last().1).0
    }
}

/// Whatever comes of its actions, a run is in a consistent state as long as its numbers stay
/// within the machine's.
pub proof fn every_reached_state_is_consistent(
    run: OptimizationRunView,
    seed: CandidateView,
    trainset: Seq<HarnessExampleView>,
    valset: Seq<HarnessExampleView>,
    events: Seq<(OptimizerEventView, Seq<char>)>,
)
    requires
        ({
            let start = optimization_start(run, seed, trainset, valset).0;
            forall|n: int|
                0 <= n < events.len() ==> (#[trigger] driven(
                    start,
                    events.take(n),
                )).within_limits()
        }),
    ensures
        driven(optimization_start(run, seed, trainset, valset).0, events).consistent(),
    decreases events.len(),
{
    let start = optimization_start(run, seed, trainset, valset).0;
    if events.len() == 0 {
        runs_start_consistent(run, seed, trainset, valset);
    } else {
        let before = events.drop_last();
        assert forall|n: int| 0 <= n < before.len() implies (#[trigger] driven(
            start,
            before.take(n),
        )).within_limits() by {
            assert(before.take(n) =~= events.take(n));
        }
        every_reached_state_is_consistent(run, seed, trainset, valset, before);
        assert(events.take(events.len() - 1) =~= before);
        assert(driven(start, events.take(events.len() - 1)).within_limits());
        runs_stay_consistent(driven(start, before), events.last().0, events.last().1);
    }
}

/// A candidate that improved is stored, then evaluated on the validation examples, then recorded
/// as accepted, and only then announced to the project.
#[verifier::spinoff_prover]
pub proof fn accepted_candidates_are_announced_last(
    course: CourseView,
    reflection: ReflectionView,
    stats: StoreStatsView,
    evaluation: CandidateEvaluationView,
    mean: Score,
    fresh: Seq<char>,
)
    ensures
        ({
            let s0 = HarnessOptimizationView {
                course,
                phase: PhaseView::BudgetingProposal(reflection),
            };
            let (s1, a1) = s0.after(OptimizerEventView::Stats(stats), fresh);
            let (s2, a2) = s1.after(OptimizerEventView::Completed, fresh);
            let (s3, a3) = s2.after(OptimizerEventView::Evaluated { evaluation, mean }, fresh);
            let (s4, a4) = s3.after(OptimizerEventView::Completed, fresh);
            &&& a1 == OptimizerActionView::UpsertCandidate(
                course.proposal_candidate(reflection, stats),
            )
            &&& a2 == (OptimizerActionView::Evaluate {
                candidate: reflection.candidate,
                examples: course.valset,
            })
            &&& a3 == OptimizerActionView::InsertProposal(
                course.proposal_record(reflection, true),
            )
            &&& a4 == OptimizerActionView::NotifyAccepted(course.run)
        }),
{
}

/// A merged candidate that is no worse is stored, then evaluated on the validation examples, then
/// recorded as accepted, and only then announced to the project. Then the merge is counted.
#[verifier::spinoff_prover]
pub proof fn accepted_merges_are_announced_last(
    course: CourseView,
    trial: MergeTrialView,
    stats: StoreStatsView,
    evaluation: CandidateEvaluationView,
    mean: Score,
    fresh: Seq<char>,
)
    ensures
        ({
            let s0 = HarnessOptimizationView { course, phase: PhaseView::BudgetingMerge(trial) };
            let (s1, a1) = s0.after(OptimizerEventView::Stats(stats), fresh);
            let (s2, a2) = s1.after(OptimizerEventView::Completed, fresh);
            let (s3, a3) = s2.after(OptimizerEventView::Evaluated { evaluation, mean }, fresh);
            let (s4, a4) = s3.after(OptimizerEventView::Completed, fresh);
            let (s5, a5) = s4.after(OptimizerEventView::Completed, fresh);
            &&& a1 == OptimizerActionView::UpsertCandidate(course.merge_candidate(trial, stats))
            &&& a2 == (OptimizerActionView::Evaluate {
                candidate: trial.plan.merged,
                examples: course.valset,
            })
            &&& a3 == OptimizerActionView::InsertProposal(course.merge_record(trial, true))
            &&& a4 == OptimizerActionView::NotifyAccepted(course.run)
            &&& (s5, a5) == course.merge_done()
        }),
{
}

/// What a run asks for after the first `n` events.
pub open spec fn asked(
    start: HarnessOptimizationView,
    events: Seq<(OptimizerEventView, Seq<char>)>,
    n: int,
) -> OptimizerActionView {
    driven(start, events.take(n - 1)).after(events[n - 1].0, events[n - 1].1).1
}

/// Every record of an accepted proposal or merge is followed at once by one announcement, unless
/// the run fails there; and nothing else is ever followed by one.
pub proof fn every_acceptance_is_announced_once(
    start: HarnessOptimizationView,
    events: Seq<(OptimizerEventView, Seq<char>)>,
    n: int,
)
    requires
        1 <= n < events.len(),
    ensures
        match asked(start, events, n) {
            OptimizerActionView::InsertProposal(record) if record.accepted => {
                ||| asked(start, events, n + 1) == OptimizerActionView::NotifyAccepted(
                    driven(start, events.take(n)).course.run,
                )
                ||| asked(start, events, n + 1) is Fail
            },
            _ => asked(start, events, n + 1) !is NotifyAccepted,
        },
        asked(start, events, n) is InsertProposal && events[n].0 is Completed ==> asked(
            start,
            events,
            n + 1,
        ) !is Fail,
{
    let before = driven(start, events.take(n - 1));
    assert(events.take(n).drop_last() =~= events.take(n - 1));
    lemma_records_lead_to_announcements(
        before,
        events[n - 1].0,
        events[n - 1].1,
        events[n].0,
        events[n].1,
    );
}

#[verifier::spinoff_prover]
#[verifier::rlimit(40)]
proof fn lemma_records_lead_to_announcements(
    state: HarnessOptimizationView,
    first: OptimizerEventView,
    fresh: Seq<char>,
    second: OptimizerEventView,
    other: Seq<char>,
)
    ensures
        ({
            let (next, action) = state.after(first, fresh);
            let then = next.after(second, other).1;
            &&& then is NotifyAccepted <==> second is Completed && (
            action matches OptimizerActionView::InsertProposal(record) && record.accepted)
            &&& then is NotifyAccepted ==> then == OptimizerActionView::NotifyAccepted(
                next.course.run,
            )
            &&& action is InsertProposal && second !is Completed ==> then is Fail
            &&& action is InsertProposal && second is Completed ==> then !is Fail
        }),
{
}

} // verus!
