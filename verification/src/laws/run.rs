//! Laws of the course of a run.

use vstd::prelude::*;

use crate::engine::{batch, parent_index, proposed, selected_components};
use crate::json::JsonView;
use crate::model::{
    runs_for, CandidateEvaluationView, CandidateProposalView, CandidateRecordView, CandidateView,
    HarnessExampleView, HarnessOptErrorView, OptimizationRunView, OptimizationStateView,
    StoreStatsView,
};
use crate::optimizer::{
    optimization_start, record_with_id, AttemptView, CourseView, HarnessOptimizationView,
    MergePlanView, OptimizerActionView, OptimizerEventView, PhaseView, SurveyView,
};
use crate::score::Score;
use crate::text::decimal;

verus! {

/// The examples that follow each other from a place on, around the end: as many as the size says,
/// at least one, and no more than there are.
pub open spec fn window(
    part: Seq<HarnessExampleView>,
    examples: Seq<HarnessExampleView>,
    start: int,
    size: int,
) -> bool {
    let n = examples.len() as int;
    &&& part.len() <= n
    &&& size >= 1 && size <= n ==> part.len() == size
    &&& size < 1 && n > 0 ==> part.len() == 1
    &&& size > n ==> part.len() == n
    &&& forall|o: int| 0 <= o < part.len() ==> #[trigger] part[o] == examples[(start + o) % n]
}

/// What is left of a budget.
pub open spec fn left_of(budget: u64, left: u64, used: u64) -> bool {
    if used <= budget {
        left + used == budget
    } else {
        left == 0
    }
}

/// The text that metadata have under a name, where they have one.
pub open spec fn named_text(
    metadata: Map<Seq<char>, JsonView>,
    name: Seq<char>,
) -> Option<Seq<char>> {
    if metadata.contains_key(name) {
        match metadata[name] {
            JsonView::Text(text) => Some(text),
            _ => None,
        }
    } else {
        None
    }
}

/// The ids of a list are those of the examples, in their order.
pub open spec fn lists_ids(ids: Seq<Seq<char>>, examples: Seq<HarnessExampleView>) -> bool {
    &&& ids.len() == examples.len()
    &&& forall|i: int| 0 <= i < ids.len() ==> #[trigger] ids[i] == examples[i].id
}

/// A merge is tried on the same examples of the validation set for the two candidates and for the
/// merged one. It is kept exactly when its score is a number that is less than neither of the
/// scores of the two, of which at least one is a number. The score that it is recorded to have had
/// to reach is one of the two, and less than neither. What is kept is stored, evaluated on the
/// whole validation set, recorded as accepted and announced; what is not is only recorded.
#[verifier::spinoff_prover]
#[verifier::rlimit(60)]
pub proof fn merges_are_kept_when_no_worse_than_both(
    course: CourseView,
    plan: MergePlanView,
    evaluations: (
        CandidateEvaluationView,
        CandidateEvaluationView,
        CandidateEvaluationView,
        CandidateEvaluationView,
    ),
    left: Score,
    right: Score,
    merged: Score,
    whole: Score,
    stats: StoreStatsView,
    fresh: Seq<char>,
)
    requires
        course.within_limits(),
    ensures
        ({
            let s0 = HarnessOptimizationView { course, phase: PhaseView::FindingMerge };
            let (s1, a1) = s0.after(OptimizerEventView::Merge(Some(plan)), fresh);
            let (s2, a2) = s1.after(
                OptimizerEventView::Evaluated { evaluation: evaluations.0, mean: left },
                fresh,
            );
            let (s3, a3) = s2.after(
                OptimizerEventView::Evaluated { evaluation: evaluations.1, mean: right },
                fresh,
            );
            let (s4, a4) = s3.after(
                OptimizerEventView::Evaluated { evaluation: evaluations.2, mean: merged },
                fresh,
            );
            let (s5, a5) = s4.after(OptimizerEventView::Stats(stats), fresh);
            let (s6, a6) = s5.after(OptimizerEventView::Completed, fresh);
            let (s7, a7) = s6.after(
                OptimizerEventView::Evaluated { evaluation: evaluations.3, mean: whole },
                fresh,
            );
            let (s8, a8) = s7.after(OptimizerEventView::Completed, fresh);
            let kept = !merged.nan() && !(left.nan() && right.nan()) && !merged.lt(left)
                && !merged.lt(right);
            &&& a1 matches OptimizerActionView::Evaluate { candidate: c1, examples: sample }
            &&& c1 == plan.left
            &&& window(
                sample,
                course.valset,
                course.iteration + 17,
                course.run.config.minibatch_size as int,
            )
            &&& a2 == (OptimizerActionView::Evaluate { candidate: plan.right, examples: sample })
            &&& a3 == (OptimizerActionView::Evaluate { candidate: plan.merged, examples: sample })
            &&& kept ==> {
                &&& a4 is LoadStats
                &&& a5 matches OptimizerActionView::UpsertCandidate(record)
                &&& record.candidate == plan.merged
                &&& record.fingerprint == crate::fingerprint::fingerprint(plan.merged)
                &&& record.parent_ids.len() == 2
                &&& record.parent_ids[0] == plan.left.id
                &&& record.parent_ids[1] == plan.right.id
                &&& record.generation == course.iteration + 1
                &&& record.component_cursor == 0
                &&& record.source_strategy == "merge"@
                &&& left_of(
                    course.run.config.max_metric_calls,
                    record.discovery_budget,
                    stats.metric_calls_used,
                )
                &&& a6 == (OptimizerActionView::Evaluate {
                    candidate: plan.merged,
                    examples: course.valset,
                })
                &&& a8 == OptimizerActionView::NotifyAccepted(course.run)
            }
            &&& !kept ==> a4 is InsertProposal
            &&& {
                let recorded = if kept {
                    a7
                } else {
                    a4
                };
                &&& recorded matches OptimizerActionView::InsertProposal(record)
                &&& record.accepted == kept
                &&& record.run_id == course.run.run_id
                &&& record.generation == course.iteration
                &&& record.parent_ids.len() == 2
                &&& record.parent_ids[0] == plan.left.id
                &&& record.parent_ids[1] == plan.right.id
                &&& lists_ids(record.minibatch_ids, sample)
                &&& record.patches.len() == 0
                &&& record.candidate_id == Some(plan.merged.id)
                &&& record.after_score == merged
                &&& record.before_score == left || record.before_score == right
                &&& !record.before_score.lt(left)
                &&& !record.before_score.lt(right)
                &&& record.reason == if kept {
                    "merge_subsample_tied_or_improved"@
                } else {
                    "merge_subsample_worse"@
                }
            }
        }),
{
    lemma_window(
        course.valset,
        course.run.config.minibatch_size as nat,
        (course.iteration + 17) as nat,
    );
}

pub proof fn lemma_window(examples: Seq<HarnessExampleView>, size: nat, start: nat)
    ensures
        window(batch(examples, size, start), examples, start as int, size as int),
{
}

/// An iteration starts from the candidate that its number selects among those surveyed. It is
/// evaluated on the examples of the training set from the place behind the number of the iteration
/// on.
pub proof fn iterations_evaluate_the_selected_parent(
    course: CourseView,
    survey: SurveyView,
    records: Seq<CandidateRecordView>,
    at: int,
    fresh: Seq<char>,
)
    requires
        course.within_limits(),
        0 <= at < records.len(),
        parent_index(
            survey.evaluated,
            course.run.config,
            course.iteration as nat,
            survey.best,
        ) is Some,
        records[at].candidate.id == survey.evaluated[parent_index(
            survey.evaluated,
            course.run.config,
            course.iteration as nat,
            survey.best,
        )->0].candidate.id,
        forall|i: int|
            0 <= i < at ==> (#[trigger] records[i]).candidate.id != records[at].candidate.id,
    ensures
        ({
            let parent = survey.evaluated[parent_index(
                survey.evaluated,
                course.run.config,
                course.iteration as nat,
                survey.best,
            )->0].candidate;
            let s0 = HarnessOptimizationView { course, phase: PhaseView::Surveying };
            let (s1, a1) = s0.after(OptimizerEventView::Surveyed(survey), fresh);
            let (s2, a2) = s1.after(OptimizerEventView::Candidates(records), fresh);
            &&& a1 is LoadCandidates
            &&& a2 matches OptimizerActionView::Evaluate { candidate, examples }
            &&& candidate == parent
            &&& window(
                examples,
                course.trainset,
                course.iteration + 1,
                course.run.config.minibatch_size as int,
            )
            &&& s2.phase matches PhaseView::EvaluatingParent(attempt)
            &&& attempt.parent == parent
            &&& attempt.record == records[at]
            &&& attempt.batch == examples
            &&& attempt.selected == selected_components(records[at], course.run.config)
            &&& attempt.frontier == survey.frontier
        }),
{
    lemma_window(
        course.trainset,
        course.run.config.minibatch_size as nat,
        (course.iteration + 1) as nat,
    );
    lemma_record(records, at);
}

proof fn lemma_record(records: Seq<CandidateRecordView>, at: int)
    requires
        0 <= at < records.len(),
        forall|i: int|
            0 <= i < at ==> (#[trigger] records[i]).candidate.id != records[at].candidate.id,
    ensures
        record_with_id(records, records[at].candidate.id) == Some(records[at]),
    decreases at,
{
    if at > 0 {
        let rest = records.drop_first();
        assert(records[0].candidate.id != records[at].candidate.id);
        assert(rest[at - 1] == records[at]);
        assert forall|i: int| 0 <= i < at - 1 implies (#[trigger] rest[i]).candidate.id
            != rest[at - 1].candidate.id by {
            assert(rest[i] == records[i + 1]);
        }
        lemma_record(rest, at - 1);
    }
}

/// Without a parent, and without a record of it, a run fails.
pub proof fn runs_fail_without_a_parent(
    course: CourseView,
    survey: SurveyView,
    parent: CandidateView,
    frontier: Seq<CandidateEvaluationView>,
    records: Seq<CandidateRecordView>,
    fresh: Seq<char>,
)
    requires
        forall|i: int| 0 <= i < records.len() ==> (#[trigger] records[i]).candidate.id != parent.id,
    ensures
        parent_index(survey.evaluated, course.run.config, course.iteration as nat, survey.best)
            is None ==> (HarnessOptimizationView { course, phase: PhaseView::Surveying }).after(
            OptimizerEventView::Surveyed(survey),
            fresh,
        ).1 == OptimizerActionView::Fail(
            HarnessOptErrorView::Store("optimizer has no candidates"@),
        ),
        (HarnessOptimizationView {
            course,
            phase: PhaseView::FindingParentRecord { parent, frontier },
        }).after(OptimizerEventView::Candidates(records), fresh).1 == OptimizerActionView::Fail(
            HarnessOptErrorView::Store("missing selected parent record"@),
        ),
{
    lemma_no_record(records, parent.id);
}

proof fn lemma_no_record(records: Seq<CandidateRecordView>, id: Seq<char>)
    requires
        forall|i: int| 0 <= i < records.len() ==> (#[trigger] records[i]).candidate.id != id,
    ensures
        record_with_id(records, id) is None,
    decreases records.len(),
{
    if records.len() > 0 {
        let rest = records.drop_first();
        assert(records[0].candidate.id != id);
        assert forall|i: int| 0 <= i < rest.len() implies (#[trigger] rest[i]).candidate.id
            != id by {
            assert(rest[i] == records[i + 1]);
        }
        lemma_no_record(rest, id);
    }
}

/// A strategy is asked with the runs of the parent on the batch, in the order of the batch, and
/// sees of its components the selected ones. What it writes goes below the directory of the run,
/// to a directory of the iteration.
pub proof fn strategies_are_asked_with_the_runs_on_the_batch(
    course: CourseView,
    attempt: AttemptView,
    evaluation: CandidateEvaluationView,
    mean: Score,
    fresh: Seq<char>,
    id: Seq<char>,
)
    requires
        !course.run.config.skip_perfect_score,
        course.run.run_dir.len() > 0,
        course.run.run_dir.last() != '/',
    ensures
        ({
            let s0 = HarnessOptimizationView {
                course,
                phase: PhaseView::EvaluatingParent(attempt),
            };
            let (s1, a1) = s0.after(OptimizerEventView::Evaluated { evaluation, mean }, fresh);
            &&& a1 matches OptimizerActionView::Propose(request)
            &&& request.run_id == course.run.run_id
            &&& request.experiment_id == course.run.experiment_id
            &&& request.generation == course.iteration
            &&& request.artifact_dir == course.run.run_dir + "/proposals/"@ + decimal(
                course.iteration as nat,
            )
            &&& request.evidence.parent.id == attempt.parent.id
            &&& request.evidence.parent.immutable_context == attempt.parent.immutable_context
            &&& request.evidence.parent.metadata == attempt.parent.metadata
            &&& request.evidence.parent.mutable_components.contains_key(id)
                <==> attempt.parent.mutable_components.contains_key(id)
                && attempt.selected.contains(id)
            &&& request.evidence.parent.mutable_components.contains_key(id)
                ==> request.evidence.parent.mutable_components[id]
                == attempt.parent.mutable_components[id]
            &&& request.evidence.evaluated_examples == runs_for(evaluation, attempt.batch)
            &&& request.evidence.frontier == attempt.frontier
        }),
{
    reveal_strlit("proposals");
    reveal_strlit("/proposals/");
    let number = decimal(course.iteration as nat);
    crate::laws::text::decimals_write_the_number(course.iteration as nat);
    let dir = crate::text::path_join(
        crate::text::path_join(course.run.run_dir, "proposals"@),
        number,
    );
    assert(number[0] != '/');
    assert(dir =~= course.run.run_dir + "/proposals/"@ + number);
}

/// Whether every result of an evaluation reaches a score.
pub open spec fn all_reach(evaluation: CandidateEvaluationView, score: Score) -> bool {
    forall|id: Seq<char>| #[trigger]
        evaluation.evaluations.contains_key(id) ==> evaluation.evaluations[id].score.ge(score)
}

/// A parent is left alone exactly when perfect parents are to be and it is perfect on the whole
/// batch: that is recorded, with its score before and after, and the next iteration starts.
/// Otherwise the strategy is asked, and the score of the parent on the batch is kept.
pub proof fn perfect_parents_are_left_alone(
    course: CourseView,
    attempt: AttemptView,
    evaluation: CandidateEvaluationView,
    mean: Score,
    fresh: Seq<char>,
)
    requires
        course.within_limits(),
    ensures
        ({
            let s0 = HarnessOptimizationView {
                course,
                phase: PhaseView::EvaluatingParent(attempt),
            };
            let (s1, a1) = s0.after(OptimizerEventView::Evaluated { evaluation, mean }, fresh);
            let (s2, a2) = s1.after(OptimizerEventView::Completed, fresh);
            let left_alone = course.run.config.skip_perfect_score && all_reach(
                evaluation,
                course.run.config.perfect_score,
            );
            &&& left_alone ==> {
                &&& a1 matches OptimizerActionView::InsertProposal(record)
                &&& !record.accepted
                &&& record.candidate_id is None
                &&& record.patches.len() == 0
                &&& record.before_score == mean
                &&& record.after_score == mean
                &&& record.parent_ids.len() == 1
                &&& record.parent_ids[0] == attempt.parent.id
                &&& record.selected_components == attempt.selected
                &&& lists_ids(record.minibatch_ids, attempt.batch)
                &&& record.reason == "skipped_perfect_minibatch"@
                &&& record.run_id == course.run.run_id
                &&& record.generation == course.iteration
                &&& a2 is CheckCancelled
                &&& s2.course.iteration == course.iteration + 1
                &&& s2.course.merge_invocations == course.merge_invocations
            }
            &&& !left_alone ==> {
                &&& a1 is Propose
                &&& s1.phase == (PhaseView::Proposing { attempt, before: mean })
            }
        }),
{
}

/// The first proposal of the strategy counts, and the others do not. It is refused where it
/// patches what was not selected or cannot be applied, and otherwise evaluated on the batch of the
/// parent. Without a proposal there is none.
pub proof fn the_first_proposal_is_tried(
    course: CourseView,
    attempt: AttemptView,
    before: Score,
    proposals: Seq<CandidateProposalView>,
    fresh: Seq<char>,
)
    ensures
        ({
            let s0 = HarnessOptimizationView {
                course,
                phase: PhaseView::Proposing { attempt, before },
            };
            let (s1, a1) = s0.after(OptimizerEventView::Proposals(proposals), fresh);
            if proposals.len() == 0 {
                a1 is FindMerge || a1 is CheckCancelled
            } else {
                let made = proposed(
                    attempt.parent,
                    course.iteration as nat,
                    proposals[0],
                    fresh,
                );
                if forall|i: int|
                    0 <= i < proposals[0].patches.len() ==> attempt.selected.contains(
                        (#[trigger] proposals[0].patches[i])->component_id,
                    ) {
                    match made {
                        Ok(candidate) => {
                            &&& a1 == (OptimizerActionView::Evaluate {
                                candidate,
                                examples: attempt.batch,
                            })
                            &&& s1.phase == (PhaseView::EvaluatingProposal {
                                attempt,
                                before,
                                proposal: proposals[0],
                                candidate,
                            })
                        },
                        Err(error) => a1 == OptimizerActionView::Fail(error),
                    }
                } else {
                    a1 matches OptimizerActionView::Fail(
                        HarnessOptErrorView::InvalidProposal(_),
                    )
                }
            }
        }),
{
    if proposals.len() > 0 {
        crate::engine::lemma_in_scope(proposals[0].patches, attempt.selected);
    }
}

/// A proposal is accepted exactly when the score of its candidate on the batch is greater than
/// that of the parent. What is accepted is stored as a child of the parent in the next generation,
/// evaluated on the validation set, recorded and announced; what is not is only recorded.
#[verifier::spinoff_prover]
#[verifier::rlimit(60)]
pub proof fn proposals_are_accepted_when_strictly_better(
    course: CourseView,
    attempt: AttemptView,
    proposal: CandidateProposalView,
    candidate: CandidateView,
    before: Score,
    after: Score,
    evaluations: (CandidateEvaluationView, CandidateEvaluationView),
    whole: Score,
    stats: StoreStatsView,
    fresh: Seq<char>,
)
    requires
        course.within_limits(),
        attempt.cursor(course) <= usize::MAX,
    ensures
        ({
            let s0 = HarnessOptimizationView {
                course,
                phase: PhaseView::EvaluatingProposal { attempt, before, proposal, candidate },
            };
            let (s1, a1) = s0.after(
                OptimizerEventView::Evaluated { evaluation: evaluations.0, mean: after },
                fresh,
            );
            let (s2, a2) = s1.after(OptimizerEventView::Stats(stats), fresh);
            let (s3, a3) = s2.after(OptimizerEventView::Completed, fresh);
            let (s4, a4) = s3.after(
                OptimizerEventView::Evaluated { evaluation: evaluations.1, mean: whole },
                fresh,
            );
            let (s5, a5) = s4.after(OptimizerEventView::Completed, fresh);
            let accepted = before.lt(after);
            &&& accepted ==> {
                &&& a1 is LoadStats
                &&& a2 matches OptimizerActionView::UpsertCandidate(record)
                &&& record.candidate == candidate
                &&& record.fingerprint == crate::fingerprint::fingerprint(candidate)
                &&& record.parent_ids.len() == 1
                &&& record.parent_ids[0] == attempt.parent.id
                &&& record.generation == course.iteration + 1
                &&& record.source_strategy == "reflection"@
                &&& record.component_cursor == if course.run.config.component_selection
                    == crate::model::ComponentSelection::All {
                    attempt.record.component_cursor as int
                } else if attempt.selected.len() > 1 {
                    attempt.record.component_cursor + attempt.selected.len()
                } else {
                    attempt.record.component_cursor + 1
                }
                &&& left_of(
                    course.run.config.max_metric_calls,
                    record.discovery_budget,
                    stats.metric_calls_used,
                )
                &&& a3 == (OptimizerActionView::Evaluate { candidate, examples: course.valset })
                &&& a5 == OptimizerActionView::NotifyAccepted(course.run)
            }
            &&& {
                let recorded = if accepted {
                    a4
                } else {
                    a1
                };
                &&& recorded matches OptimizerActionView::InsertProposal(record)
                &&& record.accepted == accepted
                &&& record.run_id == course.run.run_id
                &&& record.generation == course.iteration
                &&& record.parent_ids.len() == 1
                &&& record.parent_ids[0] == attempt.parent.id
                &&& record.selected_components == attempt.selected
                &&& lists_ids(record.minibatch_ids, attempt.batch)
                &&& record.patches == proposal.patches
                &&& record.before_score == before
                &&& record.after_score == after
                &&& record.candidate_id == Some(candidate.id)
                &&& record.rlm_prompt_ref == named_text(proposal.metadata, "rlm_prompt_ref"@)
                &&& record.rlm_output_ref == named_text(proposal.metadata, "rlm_output_ref"@)
                &&& record.reason == if accepted {
                    "strict_sum_improved"@
                } else {
                    "strict_sum_not_improved"@
                }
            }
        }),
{
}

/// A run makes its directory, registers itself and takes over what is stored of it: the id, the
/// experiment and the configuration, but not the directory and the budget. A store without
/// candidates gets the seed, with the whole budget, and the seed is evaluated on the validation
/// set, or on the training set where that is empty.
pub proof fn runs_start_with_the_seed(
    run: OptimizationRunView,
    seed: CandidateView,
    trainset: Seq<HarnessExampleView>,
    valset: Seq<HarnessExampleView>,
    stored: Option<OptimizationRunView>,
    evaluation: CandidateEvaluationView,
    mean: Score,
    fresh: Seq<char>,
)
    ensures
        ({
            let (s0, a0) = optimization_start(run, seed, trainset, valset);
            let (s1, a1) = s0.after(OptimizerEventView::Completed, fresh);
            let (s2, a2) = s1.after(OptimizerEventView::Completed, fresh);
            let (s3, a3) = s2.after(OptimizerEventView::Run(stored), fresh);
            let (s4, a4) = s3.after(OptimizerEventView::Candidates(Seq::empty()), fresh);
            let (s5, a5) = s4.after(OptimizerEventView::Completed, fresh);
            let (s6, a6) = s5.after(OptimizerEventView::Evaluated { evaluation, mean }, fresh);
            &&& a0 == OptimizerActionView::CreateRunDir(run.run_dir)
            &&& a1 == OptimizerActionView::InitRun(run)
            &&& a2 is LoadRun
            &&& a3 is LoadCandidates
            &&& s3.course.run.run_dir == run.run_dir
            &&& s3.course.run.config.max_metric_calls == run.config.max_metric_calls
            &&& stored matches Some(old) ==> {
                &&& s3.course.run.run_id == old.run_id
                &&& s3.course.run.experiment_id == old.experiment_id
                &&& s3.course.run.config.minibatch_size == old.config.minibatch_size
                &&& s3.course.run.config.max_iterations == old.config.max_iterations
                &&& s3.course.run.config.perfect_score == old.config.perfect_score
                &&& s3.course.run.config.skip_perfect_score == old.config.skip_perfect_score
                &&& s3.course.run.config.candidate_selection == old.config.candidate_selection
                &&& s3.course.run.config.component_selection == old.config.component_selection
                &&& s3.course.run.config.frontier == old.config.frontier
                &&& s3.course.run.config.use_merge == old.config.use_merge
                &&& s3.course.run.config.max_merge_invocations == old.config.max_merge_invocations
                &&& s3.course.run.config.max_concurrency == old.config.max_concurrency
                &&& s3.course.run.config.per_example_timeout_secs
                    == old.config.per_example_timeout_secs
                &&& s3.course.run.config.task_lm == old.config.task_lm
                &&& s3.course.run.config.reflection_lm == old.config.reflection_lm
            }
            &&& stored is None ==> s3.course.run == run
            &&& a4 matches OptimizerActionView::UpsertCandidate(record)
            &&& record.candidate == seed
            &&& record.fingerprint == crate::fingerprint::fingerprint(seed)
            &&& record.parent_ids.len() == 0
            &&& record.generation == 0
            &&& record.component_cursor == 0
            &&& record.source_strategy == "seed"@
            &&& record.discovery_budget == run.config.max_metric_calls
            &&& a5 == (OptimizerActionView::Evaluate {
                candidate: seed,
                examples: if valset.len() == 0 {
                    trainset
                } else {
                    valset
                },
            })
            &&& a6 is LoadCandidates
        }),
{
}

/// A store with candidates does not get the seed again.
pub proof fn the_seed_is_stored_once(
    course: CourseView,
    records: Seq<CandidateRecordView>,
    fresh: Seq<char>,
)
    requires
        records.len() > 0,
    ensures
        ({
            let s0 = HarnessOptimizationView { course, phase: PhaseView::CountingCandidates };
            let (s1, a1) = s0.after(OptimizerEventView::Candidates(records), fresh);
            &&& a1 is LoadCandidates
            &&& s1.phase is FindingGeneration
            &&& s1.course == course
        }),
{
}

/// An iteration starts from the greatest generation that is stored, and at the start of each the
/// run is asked whether it was cancelled, and how much of its budget is used. It ends where it
/// was cancelled, where the budget is used up or where it has had its iterations, and goes on
/// otherwise.
pub proof fn iterations_start_within_the_budget(
    course: CourseView,
    records: Seq<CandidateRecordView>,
    cancelled: bool,
    stats: StoreStatsView,
    state: OptimizationStateView,
    fresh: Seq<char>,
)
    ensures
        ({
            let s0 = HarnessOptimizationView { course, phase: PhaseView::FindingGeneration };
            let (s1, a1) = s0.after(OptimizerEventView::Candidates(records), fresh);
            let (s2, a2) = s1.after(OptimizerEventView::Cancelled(cancelled), fresh);
            let (s3, a3) = s2.after(OptimizerEventView::Stats(stats), fresh);
            let (s4, a4) = s3.after(OptimizerEventView::State(state), fresh);
            let config = course.run.config;
            let ended = stats.metric_calls_used >= config.max_metric_calls || (
            config.max_iterations matches Some(most) && s1.course.iteration >= most);
            &&& a1 is CheckCancelled
            &&& forall|i: int|
                0 <= i < records.len() ==> (#[trigger] records[i]).generation
                    <= s1.course.iteration
            &&& records.len() == 0 ==> s1.course.iteration == 0
            &&& records.len() > 0 ==> exists|i: int|
                0 <= i < records.len() && (#[trigger] records[i]).generation
                    == s1.course.iteration
            &&& s1.course.run == course.run
            &&& s1.course.merge_invocations == course.merge_invocations
            &&& cancelled ==> a2 == OptimizerActionView::Fail(HarnessOptErrorView::Cancelled)
            &&& !cancelled ==> a2 is LoadStats
            &&& !cancelled && ended ==> a3 is LoadState && a4 == OptimizerActionView::Finish(state)
            &&& !cancelled && !ended ==> a3 is TakeSurvey
        }),
{
    crate::engine::runs_go_on_with_greatest_generation(records);
}

/// After the proposals of an iteration a merge is tried exactly where merges are asked for and not
/// all of them have been made; otherwise the next iteration starts. A merge that was tried is
/// counted, whether it was kept or not; where there was nothing to merge, none is.
pub proof fn merges_are_tried_and_counted(
    course: CourseView,
    accepted: bool,
    fresh: Seq<char>,
)
    requires
        course.within_limits(),
        course.merge_invocations < usize::MAX,
    ensures
        ({
            let rejected = HarnessOptimizationView {
                course,
                phase: PhaseView::RecordingProposal { accepted: false },
            };
            let announced = HarnessOptimizationView { course, phase: PhaseView::NotifyingAccepted };
            let (s1, a1) = rejected.after(OptimizerEventView::Completed, fresh);
            let (s2, a2) = announced.after(OptimizerEventView::Completed, fresh);
            let wanted = course.run.config.use_merge && course.merge_invocations
                < course.run.config.max_merge_invocations;
            &&& (s1, a1) == (s2, a2)
            &&& wanted ==> {
                &&& a1 == (OptimizerActionView::FindMerge { generation: course.iteration })
                &&& s1.course == course
                &&& s1.phase is FindingMerge
            }
            &&& !wanted ==> a1 is CheckCancelled && s1.course.iteration == course.iteration + 1
                && s1.course.merge_invocations == course.merge_invocations
        }),
        ({
            let finding = HarnessOptimizationView { course, phase: PhaseView::FindingMerge };
            let (s, a) = finding.after(OptimizerEventView::Merge(None), fresh);
            &&& a is CheckCancelled
            &&& s.course.iteration == course.iteration + 1
            &&& s.course.merge_invocations == course.merge_invocations
        }),
        ({
            let refused = HarnessOptimizationView {
                course,
                phase: PhaseView::RecordingMerge { accepted: false },
            };
            let kept = HarnessOptimizationView { course, phase: PhaseView::NotifyingMerged };
            let (s1, a1) = refused.after(OptimizerEventView::Completed, fresh);
            let (s2, a2) = kept.after(OptimizerEventView::Completed, fresh);
            &&& (s1, a1) == (s2, a2)
            &&& a1 is CheckCancelled
            &&& s1.course.iteration == course.iteration + 1
            &&& s1.course.merge_invocations == course.merge_invocations + 1
        }),
{
}

} // verus!
