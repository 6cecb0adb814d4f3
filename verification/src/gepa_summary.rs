//! The summary of a run: every candidate, the Pareto front and the best candidates of each example.

use vstd::prelude::*;
use vstd::string::*;

use crate::calendar::{rfc3339, timestamp};
use crate::engine::{apply_patch, patch_error, patched};
use crate::json::compact;
use crate::model::{
    copy_indices, Candidate, CandidateRecord, CandidateRecordView, CandidateView, ComponentPatch,
    ComponentPatchView, ComponentValue, ComponentValueView, EvaluationRecord,
    EvaluationRecordView, MutableComponent, MutableComponentView, OptimizationRun,
    OptimizationRunView, ProposalRecord, ProposalRecordView, Split, StoreStats, StoreStatsView,
};
use crate::score::Score;
use crate::string_map::{enumerates, in_order, StringMap};
use crate::views::{
    duplicate_all, duplicate_opt, lemma_take_next, lemma_views_push, opt_view, views, Duplicate,
};

verus! {

/// A candidate, or a proposal that was rejected, in the summary of a run.
#[derive(Clone, Debug, PartialEq)]
pub struct CandidateSummaryEntry {
    pub candidate_idx: usize,
    pub candidate_id: Option<String>,
    pub is_seed: bool,
    pub is_accepted: bool,
    pub parent_idxs: Vec<usize>,
    pub discovery_eval_count: Option<u64>,
    pub component_texts: StringMap<String>,
    pub component_mutated: Option<String>,
    pub val_aggregate_score: Option<Score>,
    pub val_subscores: Option<StringMap<Score>>,
    pub is_on_pareto_front: bool,
    pub minibatch_score_before: Option<Score>,
    pub minibatch_score_after: Option<Score>,
}

/// The view of a [`CandidateSummaryEntry`].
#[verifier::ext_equal]
pub struct CandidateSummaryEntryView {
    pub candidate_idx: usize,
    pub candidate_id: Option<Seq<char>>,
    pub is_seed: bool,
    pub is_accepted: bool,
    pub parent_idxs: Seq<usize>,
    pub discovery_eval_count: Option<u64>,
    pub component_texts: Map<Seq<char>, Seq<char>>,
    pub component_mutated: Option<Seq<char>>,
    pub val_aggregate_score: Option<Score>,
    pub val_subscores: Option<Map<Seq<char>, Score>>,
    pub is_on_pareto_front: bool,
    pub minibatch_score_before: Option<Score>,
    pub minibatch_score_after: Option<Score>,
}

impl View for CandidateSummaryEntry {
    type V = CandidateSummaryEntryView;

    open spec fn view(&self) -> CandidateSummaryEntryView {
        CandidateSummaryEntryView {
            candidate_idx: self.candidate_idx,
            candidate_id: opt_view(self.candidate_id),
            is_seed: self.is_seed,
            is_accepted: self.is_accepted,
            parent_idxs: self.parent_idxs@,
            discovery_eval_count: self.discovery_eval_count,
            component_texts: self.component_texts@,
            component_mutated: opt_view(self.component_mutated),
            val_aggregate_score: self.val_aggregate_score,
            val_subscores: opt_view(self.val_subscores),
            is_on_pareto_front: self.is_on_pareto_front,
            minibatch_score_before: self.minibatch_score_before,
            minibatch_score_after: self.minibatch_score_after,
        }
    }
}

impl Duplicate for CandidateSummaryEntry {
    fn duplicate(&self) -> (r: Self) {
        CandidateSummaryEntry {
            candidate_idx: self.candidate_idx,
            candidate_id: duplicate_opt(&self.candidate_id),
            is_seed: self.is_seed,
            is_accepted: self.is_accepted,
            parent_idxs: copy_indices(&self.parent_idxs),
            discovery_eval_count: self.discovery_eval_count,
            component_texts: self.component_texts.duplicate(),
            component_mutated: duplicate_opt(&self.component_mutated),
            val_aggregate_score: self.val_aggregate_score,
            val_subscores: duplicate_opt(&self.val_subscores),
            is_on_pareto_front: self.is_on_pareto_front,
            minibatch_score_before: self.minibatch_score_before,
            minibatch_score_after: self.minibatch_score_after,
        }
    }
}

/// The summary of a run.
#[derive(Clone, Debug, PartialEq)]
pub struct GepaSummary {
    pub schema_version: String,
    pub run_id: String,
    pub experiment_id: String,
    pub completed_at: String,
    pub task_lm: String,
    pub reflection_lm: String,
    pub seed: u64,
    pub max_metric_calls: u64,
    pub total_metric_calls: u64,
    pub num_val_examples: usize,
    pub val_example_ids: Vec<String>,
    pub candidates: Vec<CandidateSummaryEntry>,
    pub pareto_front_per_val_example: StringMap<Vec<usize>>,
}

/// The view of a [`GepaSummary`].
#[verifier::ext_equal]
pub struct GepaSummaryView {
    pub schema_version: Seq<char>,
    pub run_id: Seq<char>,
    pub experiment_id: Seq<char>,
    pub completed_at: Seq<char>,
    pub task_lm: Seq<char>,
    pub reflection_lm: Seq<char>,
    pub seed: u64,
    pub max_metric_calls: u64,
    pub total_metric_calls: u64,
    pub num_val_examples: usize,
    pub val_example_ids: Seq<Seq<char>>,
    pub candidates: Seq<CandidateSummaryEntryView>,
    pub pareto_front_per_val_example: Map<Seq<char>, Seq<usize>>,
}

impl View for GepaSummary {
    type V = GepaSummaryView;

    open spec fn view(&self) -> GepaSummaryView {
        GepaSummaryView {
            schema_version: self.schema_version@,
            run_id: self.run_id@,
            experiment_id: self.experiment_id@,
            completed_at: self.completed_at@,
            task_lm: self.task_lm@,
            reflection_lm: self.reflection_lm@,
            seed: self.seed,
            max_metric_calls: self.max_metric_calls,
            total_metric_calls: self.total_metric_calls,
            num_val_examples: self.num_val_examples,
            val_example_ids: views(self.val_example_ids@),
            candidates: views(self.candidates@),
            pareto_front_per_val_example: self.pareto_front_per_val_example@,
        }
    }
}

/// The text that stands for the value of a component.
pub open spec fn text_value(value: ComponentValueView) -> Seq<char> {
    match value {
        ComponentValueView::Text { text } => text,
        ComponentValueView::Json { value } => compact(value),
        ComponentValueView::PromptTemplate { .. } => "<PromptTemplate>"@,
        ComponentValueView::PromptContribution { .. } => "<PromptContribution>"@,
    }
}

/// The texts of components, by their ids.
pub open spec fn texts_of(components: Map<Seq<char>, MutableComponentView>) -> Map<
    Seq<char>,
    Seq<char>,
> {
    components.map_values(|c: MutableComponentView| text_value(c.value))
}

/// The candidate after all patches, of which those that are refused are passed over.
pub open spec fn leniently_patched(
    candidate: CandidateView,
    patches: Seq<ComponentPatchView>,
) -> CandidateView
    decreases patches.len(),
{
    if patches.len() == 0 {
        candidate
    } else {
        let before = leniently_patched(candidate, patches.drop_last());
        if patch_error(before, patches.last()) is None {
            patched(before, patches.last())
        } else {
            before
        }
    }
}

/// The score of a candidate on an example of the validation set: that of the latest record, or
/// zero.
pub open spec fn val_score(
    evaluations: Seq<EvaluationRecordView>,
    candidate_id: Seq<char>,
    example_id: Seq<char>,
) -> Score
    decreases evaluations.len(),
{
    if evaluations.len() == 0 {
        Score { bits: 0 }
    } else {
        let last = evaluations.last();
        if last.split == Split::Val && last.candidate_id == candidate_id && last.example_id
            == example_id {
            last.score
        } else {
            val_score(evaluations.drop_last(), candidate_id, example_id)
        }
    }
}

/// The scores of a candidate on the examples of the validation set.
pub open spec fn subscores(
    evaluations: Seq<EvaluationRecordView>,
    candidate_id: Seq<char>,
    val_ids: Seq<Seq<char>>,
) -> Map<Seq<char>, Score> {
    Map::new(
        |id: Seq<char>| val_ids.contains(id),
        |id: Seq<char>| val_score(evaluations, candidate_id, id),
    )
}

/// The latest accepted proposal that made the candidate.
pub open spec fn accepted_proposal(
    proposals: Seq<ProposalRecordView>,
    candidate_id: Seq<char>,
) -> Option<ProposalRecordView>
    decreases proposals.len(),
{
    if proposals.len() == 0 {
        None
    } else if proposals.last().accepted && proposals.last().candidate_id == Some(candidate_id) {
        Some(proposals.last())
    } else {
        accepted_proposal(proposals.drop_last(), candidate_id)
    }
}

/// The proposals that were rejected.
pub open spec fn rejected_proposals(proposals: Seq<ProposalRecordView>) -> Seq<ProposalRecordView>
    decreases proposals.len(),
{
    if proposals.len() == 0 {
        Seq::empty()
    } else {
        let before = rejected_proposals(proposals.drop_last());
        if proposals.last().accepted {
            before
        } else {
            before.push(proposals.last())
        }
    }
}

/// The last place of a candidate among the records.
pub open spec fn place_of(records: Seq<CandidateRecordView>, id: Seq<char>) -> Option<usize>
    decreases records.len(),
{
    if records.len() == 0 {
        None
    } else if records.last().candidate.id == id {
        Some((records.len() - 1) as usize)
    } else {
        place_of(records.drop_last(), id)
    }
}

/// The places of candidates among the records; ids that no record has are passed over.
pub open spec fn places_of(records: Seq<CandidateRecordView>, ids: Seq<Seq<char>>) -> Seq<usize>
    decreases ids.len(),
{
    if ids.len() == 0 {
        Seq::empty()
    } else {
        let before = places_of(records, ids.drop_last());
        match place_of(records, ids.last()) {
            Some(i) => before.push(i),
            None => before,
        }
    }
}

/// The first of the texts.
pub open spec fn first_text(texts: Seq<Seq<char>>) -> Option<Seq<char>> {
    if texts.len() == 0 {
        None
    } else {
        Some(texts[0])
    }
}

/// What a summary is made of. `aggregates` holds the mean of the scores on the validation set for
/// each of the candidates.
#[verifier::ext_equal]
pub struct Sources {
    pub run: OptimizationRunView,
    pub val_ids: Seq<Seq<char>>,
    pub candidates: Seq<CandidateRecordView>,
    pub evaluations: Seq<EvaluationRecordView>,
    pub proposals: Seq<ProposalRecordView>,
    pub aggregates: Seq<Score>,
}

impl Sources {
    /// The entry of a candidate.
    pub open spec fn accepted_entry(self, i: int) -> CandidateSummaryEntryView {
        let record = self.candidates[i];
        let proposal = accepted_proposal(self.proposals, record.candidate.id);
        CandidateSummaryEntryView {
            candidate_idx: i as usize,
            candidate_id: Some(record.candidate.id),
            is_seed: record.generation == 0,
            is_accepted: true,
            parent_idxs: places_of(self.candidates, record.parent_ids),
            discovery_eval_count: Some(
                if record.discovery_budget < self.run.config.max_metric_calls {
                    (self.run.config.max_metric_calls - record.discovery_budget) as u64
                } else {
                    0
                },
            ),
            component_texts: texts_of(record.candidate.mutable_components),
            component_mutated: match proposal {
                Some(p) => first_text(p.selected_components),
                None => None,
            },
            val_aggregate_score: Some(self.aggregates[i]),
            val_subscores: Some(subscores(self.evaluations, record.candidate.id, self.val_ids)),
            is_on_pareto_front: false,
            minibatch_score_before: match proposal {
                Some(p) => Some(p.before_score),
                None => None,
            },
            minibatch_score_after: match proposal {
                Some(p) => Some(p.after_score),
                None => None,
            },
        }
    }

    /// The components that a rejected proposal would have made.
    pub open spec fn rejected_texts(self, proposal: ProposalRecordView) -> Map<
        Seq<char>,
        Seq<char>,
    > {
        let parent = match first_text(proposal.parent_ids) {
            Some(id) => place_of(self.candidates, id),
            None => None,
        };
        match parent {
            Some(i) => texts_of(
                leniently_patched(
                    self.candidates[i as int].candidate,
                    proposal.patches,
                ).mutable_components,
            ),
            None => Map::empty(),
        }
    }

    /// The entry of a rejected proposal.
    pub open spec fn rejected_entry(
        self,
        proposal: ProposalRecordView,
        i: int,
    ) -> CandidateSummaryEntryView {
        CandidateSummaryEntryView {
            candidate_idx: i as usize,
            candidate_id: None,
            is_seed: false,
            is_accepted: false,
            parent_idxs: places_of(self.candidates, proposal.parent_ids),
            discovery_eval_count: None,
            component_texts: self.rejected_texts(proposal),
            component_mutated: first_text(proposal.selected_components),
            val_aggregate_score: None,
            val_subscores: None,
            is_on_pareto_front: false,
            minibatch_score_before: Some(proposal.before_score),
            minibatch_score_after: Some(proposal.after_score),
        }
    }

    /// The entries before the Pareto front is marked: the candidates in their order, and behind
    /// them the rejected proposals in theirs.
    pub open spec fn entries(self) -> Seq<CandidateSummaryEntryView> {
        let n = self.candidates.len();
        let rejected = rejected_proposals(self.proposals);
        Seq::new(
            n + rejected.len(),
            |i: int|
                if i < n {
                    self.accepted_entry(i)
                } else {
                    self.rejected_entry(rejected[i - n], i)
                },
        )
    }
}

/// The score on an example, or zero.
pub open spec fn subscore(scores: Map<Seq<char>, Score>, id: Seq<char>) -> Score {
    if scores.contains_key(id) {
        scores[id]
    } else {
        Score { bits: 0 }
    }
}

/// Whether scores beat others on every example.
pub open spec fn beats(
    better: Map<Seq<char>, Score>,
    worse: Map<Seq<char>, Score>,
    val_ids: Seq<Seq<char>>,
) -> bool {
    &&& val_ids.len() > 0
    &&& forall|i: int|
        0 <= i < val_ids.len() ==> subscore(worse, #[trigger] val_ids[i]).lt(
            subscore(better, val_ids[i]),
        )
}

/// Whether an entry is a candidate with scores.
pub open spec fn scored(entry: CandidateSummaryEntryView) -> bool {
    entry.is_accepted && entry.val_subscores is Some
}

/// Whether an entry is a candidate that no other candidate beats on every example.
pub open spec fn on_front(
    entries: Seq<CandidateSummaryEntryView>,
    val_ids: Seq<Seq<char>>,
    i: int,
) -> bool {
    &&& scored(entries[i])
    &&& forall|j: int|
        0 <= j < entries.len() && j != i && scored(#[trigger] entries[j]) ==> !beats(
            entries[j].val_subscores->0,
            entries[i].val_subscores->0,
            val_ids,
        )
}

/// The indices of the entries on the Pareto front among the first `n`.
pub open spec fn front_idxs(
    entries: Seq<CandidateSummaryEntryView>,
    val_ids: Seq<Seq<char>>,
    n: nat,
) -> Seq<usize>
    decreases n,
{
    if n == 0 {
        Seq::empty()
    } else {
        let before = front_idxs(entries, val_ids, (n - 1) as nat);
        if on_front(entries, val_ids, n - 1) {
            before.push((n - 1) as usize)
        } else {
            before
        }
    }
}

/// The entries with the Pareto front marked.
pub open spec fn marked(
    entries: Seq<CandidateSummaryEntryView>,
    val_ids: Seq<Seq<char>>,
) -> Seq<CandidateSummaryEntryView> {
    Seq::new(
        entries.len(),
        |i: int|
            CandidateSummaryEntryView {
                is_on_pareto_front: on_front(entries, val_ids, i),
                ..entries[i]
            },
    )
}

/// Negative infinity.
pub open spec fn lowest() -> Score {
    Score { bits: 0xfff0_0000_0000_0000 }
}

/// The score of an entry on an example, or negative infinity.
pub open spec fn score_or_lowest(entry: CandidateSummaryEntryView, id: Seq<char>) -> Score {
    match entry.val_subscores {
        Some(scores) => if scores.contains_key(id) {
            scores[id]
        } else {
            lowest()
        },
        None => lowest(),
    }
}

/// The best score of the candidates among the first `n` entries on an example.
pub open spec fn best_score(
    entries: Seq<CandidateSummaryEntryView>,
    id: Seq<char>,
    n: nat,
) -> Score
    decreases n,
{
    if n == 0 {
        lowest()
    } else {
        let before = best_score(entries, id, (n - 1) as nat);
        let last = entries[n - 1];
        if scored(last) && (last.val_subscores->0).contains_key(id) {
            before.greater((last.val_subscores->0)[id])
        } else {
            before
        }
    }
}

/// The indices of the candidates among the first `n` entries that reach a score on an example.
pub open spec fn reaching(
    entries: Seq<CandidateSummaryEntryView>,
    id: Seq<char>,
    best: Score,
    n: nat,
) -> Seq<usize>
    decreases n,
{
    if n == 0 {
        Seq::empty()
    } else {
        let before = reaching(entries, id, best, (n - 1) as nat);
        if entries[n - 1].is_accepted && score_or_lowest(entries[n - 1], id).ge(best) {
            before.push(entries[n - 1].candidate_idx)
        } else {
            before
        }
    }
}

/// The best candidates of an example.
pub open spec fn best_of(entries: Seq<CandidateSummaryEntryView>, id: Seq<char>) -> Seq<usize> {
    reaching(entries, id, best_score(entries, id, entries.len()), entries.len())
}

/// The best candidates of each example of the validation set.
pub open spec fn best_per_example(
    entries: Seq<CandidateSummaryEntryView>,
    val_ids: Seq<Seq<char>>,
) -> Map<Seq<char>, Seq<usize>> {
    Map::new(|id: Seq<char>| val_ids.contains(id), |id: Seq<char>| best_of(entries, id))
}

/// The summary of a run at a moment, in seconds since the start of 1970.
pub open spec fn summary_of(
    sources: Sources,
    stats: StoreStatsView,
    secs: nat,
) -> GepaSummaryView {
    GepaSummaryView {
        schema_version: "1"@,
        run_id: sources.run.run_id,
        experiment_id: sources.run.experiment_id,
        completed_at: timestamp(secs),
        task_lm: sources.run.config.task_lm,
        reflection_lm: sources.run.config.reflection_lm,
        seed: 0,
        max_metric_calls: sources.run.config.max_metric_calls,
        total_metric_calls: stats.metric_calls_used,
        num_val_examples: sources.val_ids.len() as usize,
        val_example_ids: sources.val_ids,
        candidates: marked(sources.entries(), sources.val_ids),
        pareto_front_per_val_example: best_per_example(sources.entries(), sources.val_ids),
    }
}

/// The text that stands for the value of a component.
pub fn extract_text_value(value: &ComponentValue) -> (r: String)
    ensures
        r@ == text_value(value@),
{
    match value {
        ComponentValue::Text { text } => text.clone(),
        ComponentValue::Json { value } => value.to_compact(),
        ComponentValue::PromptTemplate { .. } => "<PromptTemplate>".to_string(),
        ComponentValue::PromptContribution { .. } => "<PromptContribution>".to_string(),
    }
}

/// The texts of components, by their ids.
pub fn component_texts(components: &StringMap<MutableComponent>) -> (r: StringMap<String>)
    ensures
        r@ == texts_of(components@),
{
    let n: usize = components.len();
    let ghost keys = in_order(components@.dom());
    let ghost target = texts_of(components@);
    let mut r: StringMap<String> = StringMap::new();
    let mut i: usize = 0;
    while i < n
        invariant
            i <= n,
            n == keys.len(),
            keys == in_order(components@.dom()),
            enumerates(keys, components@.dom()),
            target == texts_of(components@),
            forall|k: Seq<char>| #[trigger]
                r@.contains_key(k) <==> exists|j: int| 0 <= j < i && keys[j] == k,
            forall|k: Seq<char>| #[trigger] r@.contains_key(k) ==> r@[k] == target[k],
        decreases n - i,
    {
        let ghost before = r@;
        let key: String = components.key_at(i).clone();
        let text: String = extract_text_value(&components.value_at(i).value);
        proof {
            assert(keys.contains(keys[i as int]));
            assert(components@.dom().contains(key@));
            assert(target[key@] == text@);
        }
        r.insert(key, text);
        assert forall|k: Seq<char>| #[trigger] r@.contains_key(k) <==> exists|j: int|
            0 <= j < i + 1 && keys[j] == k by {
            if r@.contains_key(k) {
                if k == key@ {
                    assert(keys[i as int] == k);
                } else {
                    assert(before.contains_key(k));
                    let j = choose|j: int| 0 <= j < i && keys[j] == k;
                    assert(0 <= j < i + 1 && keys[j] == k);
                }
            }
            if exists|j: int| 0 <= j < i + 1 && keys[j] == k {
                let j = choose|j: int| 0 <= j < i + 1 && keys[j] == k;
                if j < i {
                    assert(before.contains_key(k));
                }
            }
        }
        i = i + 1;
    }
    assert forall|k: Seq<char>| r@.contains_key(k) <==> target.contains_key(k) by {
        assert(keys.contains(k) <==> components@.dom().contains(k));
        if keys.contains(k) {
            let j = choose|j: int| 0 <= j < keys.len() && keys[j] == k;
            assert(0 <= j < i && keys[j] == k);
        }
    }
    assert(r@ =~= target);
    r
}

/// The texts of the components of a candidate after patches, of which those that are refused are
/// passed over.
pub fn apply_patches_to_candidate(candidate: &Candidate, patches: &[ComponentPatch]) -> (r:
    StringMap<String>)
    ensures
        r@ == texts_of(leniently_patched(candidate@, views(patches@)).mutable_components),
{
    let ghost all = views(patches@);
    let mut current: Candidate = candidate.duplicate();
    let mut i: usize = 0;
    while i < patches.len()
        invariant
            i <= patches@.len(),
            all == views(patches@),
            current@ == leniently_patched(candidate@, all.take(i as int)),
        decreases patches@.len() - i,
    {
        assert(all.take(i + 1).drop_last() =~= all.take(i as int));
        let _ = apply_patch(&mut current, &patches[i]);
        i = i + 1;
    }
    assert(all.take(i as int) =~= all);
    component_texts(&current.mutable_components)
}

fn find_val_score(evaluations: &[EvaluationRecord], candidate_id: &String, id: &String) -> (r:
    Score)
    ensures
        r == val_score(views(evaluations@), candidate_id@, id@),
{
    let ghost all = views(evaluations@);
    let mut n: usize = evaluations.len();
    assert(all.take(n as int) =~= all);
    while n > 0
        invariant
            n <= evaluations@.len(),
            all == views(evaluations@),
            val_score(all, candidate_id@, id@) == val_score(
                all.take(n as int),
                candidate_id@,
                id@,
            ),
        decreases n,
    {
        let e: &EvaluationRecord = &evaluations[n - 1];
        assert(all.take(n as int).drop_last() =~= all.take(n - 1));
        if e.split == Split::Val && e.candidate_id == *candidate_id && e.example_id == *id {
            return e.score;
        }
        n = n - 1;
    }
    Score::zero()
}

/// The scores of a candidate on the examples of the validation set.
pub fn val_subscores(
    evaluations: &[EvaluationRecord],
    candidate_id: &String,
    val_ids: &[String],
) -> (r: StringMap<Score>)
    ensures
        r@ == subscores(views(evaluations@), candidate_id@, views(val_ids@)),
{
    let ghost all = views(val_ids@);
    let ghost target = subscores(views(evaluations@), candidate_id@, all);
    let mut r: StringMap<Score> = StringMap::new();
    let mut i: usize = 0;
    while i < val_ids.len()
        invariant
            i <= val_ids@.len(),
            all == views(val_ids@),
            target == subscores(views(evaluations@), candidate_id@, all),
            forall|k: Seq<char>| #[trigger]
                r@.contains_key(k) <==> exists|j: int| 0 <= j < i && all[j] == k,
            forall|k: Seq<char>| #[trigger] r@.contains_key(k) ==> r@[k] == target[k],
        decreases val_ids@.len() - i,
    {
        let ghost before = r@;
        let score: Score = find_val_score(evaluations, candidate_id, &val_ids[i]);
        let id: String = val_ids[i].clone();
        proof {
            assert(all[i as int] == id@);
            assert(all.contains(id@));
        }
        r.insert(id, score);
        assert forall|k: Seq<char>| #[trigger] r@.contains_key(k) <==> exists|j: int|
            0 <= j < i + 1 && all[j] == k by {
            if r@.contains_key(k) {
                if k == id@ {
                    assert(all[i as int] == k);
                } else {
                    assert(before.contains_key(k));
                    let j = choose|j: int| 0 <= j < i && all[j] == k;
                    assert(0 <= j < i + 1 && all[j] == k);
                }
            }
            if exists|j: int| 0 <= j < i + 1 && all[j] == k {
                let j = choose|j: int| 0 <= j < i + 1 && all[j] == k;
                if j < i {
                    assert(before.contains_key(k));
                }
            }
        }
        i = i + 1;
    }
    assert forall|k: Seq<char>| r@.contains_key(k) <==> target.contains_key(k) by {
        if all.contains(k) {
            let j = choose|j: int| 0 <= j < all.len() && all[j] == k;
            assert(0 <= j < i && all[j] == k);
        }
    }
    assert(r@ =~= target);
    r
}

fn find_accepted(proposals: &[ProposalRecord], candidate_id: &String) -> (r: Option<usize>)
    ensures
        match r {
            Some(i) => i < proposals@.len() && accepted_proposal(
                views(proposals@),
                candidate_id@,
            ) == Some(proposals@[i as int]@),
            None => accepted_proposal(views(proposals@), candidate_id@) is None,
        },
{
    let ghost all = views(proposals@);
    let mut n: usize = proposals.len();
    assert(all.take(n as int) =~= all);
    while n > 0
        invariant
            n <= proposals@.len(),
            all == views(proposals@),
            accepted_proposal(all, candidate_id@) == accepted_proposal(
                all.take(n as int),
                candidate_id@,
            ),
        decreases n,
    {
        let p: &ProposalRecord = &proposals[n - 1];
        assert(all.take(n as int).drop_last() =~= all.take(n - 1));
        assert(all.take(n as int).last() == p@);
        if p.accepted {
            if let Some(id) = &p.candidate_id {
                if *id == *candidate_id {
                    return Some(n - 1);
                }
            }
        }
        n = n - 1;
    }
    None
}

fn find_place(records: &[CandidateRecord], id: &String) -> (r: Option<usize>)
    ensures
        r == place_of(views(records@), id@),
        r is Some ==> r->0 < records@.len(),
{
    let ghost all = views(records@);
    let mut n: usize = records.len();
    assert(all.take(n as int) =~= all);
    while n > 0
        invariant
            n <= records@.len(),
            all == views(records@),
            place_of(all, id@) == place_of(all.take(n as int), id@),
        decreases n,
    {
        assert(all.take(n as int).drop_last() =~= all.take(n - 1));
        assert(all.take(n as int).last() == records@[n - 1]@);
        if records[n - 1].candidate.id == *id {
            return Some(n - 1);
        }
        n = n - 1;
    }
    None
}

fn find_places(records: &[CandidateRecord], ids: &Vec<String>) -> (r: Vec<usize>)
    ensures
        r@ == places_of(views(records@), views(ids@)),
{
    let ghost all = views(ids@);
    let mut r: Vec<usize> = Vec::new();
    let mut i: usize = 0;
    while i < ids.len()
        invariant
            i <= ids@.len(),
            all == views(ids@),
            r@ == places_of(views(records@), all.take(i as int)),
        decreases ids@.len() - i,
    {
        assert(all.take(i + 1).drop_last() =~= all.take(i as int));
        if let Some(place) = find_place(records, &ids[i]) {
            r.push(place);
        }
        i = i + 1;
    }
    assert(all.take(i as int) =~= all);
    r
}

fn first_of(texts: &Vec<String>) -> (r: Option<String>)
    ensures
        opt_view(r) == first_text(views(texts@)),
{
    assert(views(texts@).len() == texts@.len());
    if texts.len() == 0 {
        None
    } else {
        Some(texts[0].clone())
    }
}

fn beats_everywhere(
    better: &StringMap<Score>,
    worse: &StringMap<Score>,
    val_ids: &[String],
) -> (r: bool)
    ensures
        r == beats(better@, worse@, views(val_ids@)),
{
    let ghost all = views(val_ids@);
    let n: usize = val_ids.len();
    assert(all.len() == n);
    let mut i: usize = 0;
    while i < n
        invariant
            i <= n,
            n == val_ids@.len(),
            all == views(val_ids@),
            forall|j: int|
                0 <= j < i ==> subscore(worse@, #[trigger] all[j]).lt(subscore(better@, all[j])),
        decreases n - i,
    {
        let b: Score = score_of(better, &val_ids[i]);
        let w: Score = score_of(worse, &val_ids[i]);
        assert(all[i as int] == val_ids@[i as int]@);
        if !w.less_than(&b) {
            return false;
        }
        i = i + 1;
    }
    n > 0
}

fn score_of(scores: &StringMap<Score>, id: &String) -> (r: Score)
    ensures
        r == subscore(scores@, id@),
{
    match scores.get(id.as_str()) {
        Some(score) => *score,
        None => Score::zero(),
    }
}

fn is_on_front(entries: &[CandidateSummaryEntry], val_ids: &[String], i: usize) -> (r: bool)
    requires
        i < entries@.len(),
    ensures
        r == on_front(views(entries@), views(val_ids@), i as int),
{
    let ghost all = views(entries@);
    assert(all[i as int] == entries@[i as int]@);
    if !entries[i].is_accepted {
        return false;
    }
    let scores: &StringMap<Score> = match &entries[i].val_subscores {
        Some(scores) => scores,
        None => {
            return false;
        },
    };
    let mut j: usize = 0;
    while j < entries.len()
        invariant
            i < entries@.len(),
            j <= entries@.len(),
            all == views(entries@),
            scored(all[i as int]),
            all[i as int] == entries@[i as int]@,
            scores@ == all[i as int].val_subscores->0,
            forall|k: int|
                0 <= k < j && k != i && scored(#[trigger] all[k]) ==> !beats(
                    all[k].val_subscores->0,
                    scores@,
                    views(val_ids@),
                ),
        decreases entries@.len() - j,
    {
        assert(all[j as int] == entries@[j as int]@);
        if j != i && entries[j].is_accepted {
            if let Some(other) = &entries[j].val_subscores {
                if beats_everywhere(other, scores, val_ids) {
                    return false;
                }
            }
        }
        j = j + 1;
    }
    true
}

/// The indices into the entries of the candidates on the Pareto front: those that no other
/// candidate beats on every example.
pub fn compute_pareto_front_idxs(entries: &[CandidateSummaryEntry], val_ids: &[String]) -> (r: Vec<
    usize,
>)
    ensures
        r@ == front_idxs(views(entries@), views(val_ids@), entries@.len()),
{
    let mut r: Vec<usize> = Vec::new();
    let mut i: usize = 0;
    while i < entries.len()
        invariant
            i <= entries@.len(),
            r@ == front_idxs(views(entries@), views(val_ids@), i as nat),
        decreases entries@.len() - i,
    {
        if is_on_front(entries, val_ids, i) {
            r.push(i);
        }
        i = i + 1;
    }
    r
}

/// The front holds the index of a candidate exactly when no other candidate beats it on every
/// example.
pub proof fn front_holds_unbeaten_candidates(
    entries: Seq<CandidateSummaryEntryView>,
    val_ids: Seq<Seq<char>>,
    n: nat,
)
    requires
        n <= entries.len() <= usize::MAX,
    ensures
        forall|i: int|
            0 <= i < entries.len() ==> (#[trigger] front_idxs(entries, val_ids, n).contains(
                i as usize,
            ) <==> i < n && on_front(entries, val_ids, i)),
    decreases n,
{
    if n > 0 {
        let m = (n - 1) as nat;
        front_holds_unbeaten_candidates(entries, val_ids, m);
        let before = front_idxs(entries, val_ids, m);
        let after = front_idxs(entries, val_ids, n);
        assert forall|i: int| 0 <= i < entries.len() implies (#[trigger] after.contains(
            i as usize,
        ) <==> i < n && on_front(entries, val_ids, i)) by {
            assert(before.contains(i as usize) <==> i < m && on_front(entries, val_ids, i));
            if on_front(entries, val_ids, n - 1) {
                assert(after == before.push((n - 1) as usize));
                if before.contains(i as usize) {
                    let j = choose|j: int| 0 <= j < before.len() && before[j] == i as usize;
                    assert(after[j] == i as usize);
                }
                if i == n - 1 {
                    assert(after[before.len() as int] == i as usize);
                }
                if after.contains(i as usize) && i != n - 1 {
                    let j = choose|j: int| 0 <= j < after.len() && after[j] == i as usize;
                    assert(before[j] == i as usize);
                }
            }
        }
    }
}

proof fn lemma_beats_transitive(
    a: Map<Seq<char>, Score>,
    b: Map<Seq<char>, Score>,
    c: Map<Seq<char>, Score>,
    val_ids: Seq<Seq<char>>,
)
    requires
        beats(a, b, val_ids),
        beats(b, c, val_ids),
    ensures
        beats(a, c, val_ids),
{
    assert forall|i: int| 0 <= i < val_ids.len() implies subscore(c, #[trigger] val_ids[i]).lt(
        subscore(a, val_ids[i]),
    ) by {
        assert(subscore(b, val_ids[i]).lt(subscore(a, val_ids[i])));
        assert(subscore(c, val_ids[i]).lt(subscore(b, val_ids[i])));
    }
}

proof fn lemma_beats_irreflexive(a: Map<Seq<char>, Score>, val_ids: Seq<Seq<char>>)
    ensures
        !beats(a, a, val_ids),
{
    if val_ids.len() > 0 {
        assert(!subscore(a, val_ids[0]).lt(subscore(a, val_ids[0])));
    }
}

proof fn lemma_unbeaten_exists(
    entries: Seq<CandidateSummaryEntryView>,
    val_ids: Seq<Seq<char>>,
    n: nat,
) -> (best: int)
    requires
        n <= entries.len(),
        exists|i: int| 0 <= i < n && scored(#[trigger] entries[i]),
    ensures
        0 <= best < n,
        scored(entries[best]),
        forall|j: int|
            0 <= j < n && scored(#[trigger] entries[j]) ==> !beats(
                entries[j].val_subscores->0,
                entries[best].val_subscores->0,
                val_ids,
            ),
    decreases n,
{
    let m = (n - 1) as nat;
    lemma_beats_irreflexive(entries[m as int].val_subscores->0, val_ids);
    if exists|i: int| 0 <= i < m && scored(#[trigger] entries[i]) {
        let best = lemma_unbeaten_exists(entries, val_ids, m);
        let last = entries[m as int];
        if scored(last) && beats(
            last.val_subscores->0,
            entries[best].val_subscores->0,
            val_ids,
        ) {
            assert forall|j: int| 0 <= j < n && scored(#[trigger] entries[j]) implies !beats(
                entries[j].val_subscores->0,
                last.val_subscores->0,
                val_ids,
            ) by {
                if beats(entries[j].val_subscores->0, last.val_subscores->0, val_ids) {
                    if j < m {
                        lemma_beats_transitive(
                            entries[j].val_subscores->0,
                            last.val_subscores->0,
                            entries[best].val_subscores->0,
                            val_ids,
                        );
                    }
                }
            }
            m as int
        } else {
            best
        }
    } else {
        assert(scored(entries[m as int]));
        m as int
    }
}

/// Where there are candidates with scores, the Pareto front is not empty.
pub proof fn front_is_not_empty(
    entries: Seq<CandidateSummaryEntryView>,
    val_ids: Seq<Seq<char>>,
)
    requires
        entries.len() <= usize::MAX,
        exists|i: int| 0 <= i < entries.len() && scored(#[trigger] entries[i]),
    ensures
        front_idxs(entries, val_ids, entries.len()).len() > 0,
{
    let best = lemma_unbeaten_exists(entries, val_ids, entries.len());
    front_holds_unbeaten_candidates(entries, val_ids, entries.len());
    assert(on_front(entries, val_ids, best));
    assert(front_idxs(entries, val_ids, entries.len()).contains(best as usize));
}

fn best_candidates(entries: &[CandidateSummaryEntry], id: &String) -> (r: Vec<usize>)
    ensures
        r@ == best_of(views(entries@), id@),
{
    let ghost all = views(entries@);
    let mut best: Score = Score { bits: 0xfff0_0000_0000_0000 };
    let mut i: usize = 0;
    while i < entries.len()
        invariant
            i <= entries@.len(),
            all == views(entries@),
            best == best_score(all, id@, i as nat),
        decreases entries@.len() - i,
    {
        assert(all[i as int] == entries@[i as int]@);
        if entries[i].is_accepted {
            if let Some(scores) = &entries[i].val_subscores {
                if let Some(score) = scores.get(id.as_str()) {
                    best = best.max(score);
                }
            }
        }
        i = i + 1;
    }
    let mut r: Vec<usize> = Vec::new();
    let mut j: usize = 0;
    while j < entries.len()
        invariant
            j <= entries@.len(),
            all == views(entries@),
            r@ == reaching(all, id@, best, j as nat),
        decreases entries@.len() - j,
    {
        assert(all[j as int] == entries@[j as int]@);
        if entries[j].is_accepted {
            let score: Score = match &entries[j].val_subscores {
                Some(scores) => match scores.get(id.as_str()) {
                    Some(score) => *score,
                    None => Score { bits: 0xfff0_0000_0000_0000 },
                },
                None => Score { bits: 0xfff0_0000_0000_0000 },
            };
            if score.at_least(&best) {
                r.push(entries[j].candidate_idx);
            }
        }
        j = j + 1;
    }
    r
}

/// A candidate is among the best of an example exactly when no candidate has a greater score on
/// it.
pub proof fn best_candidates_have_the_greatest_score(
    entries: Seq<CandidateSummaryEntryView>,
    id: Seq<char>,
    i: int,
)
    requires
        0 <= i < entries.len() <= usize::MAX,
        forall|j: int|
            0 <= j < entries.len() ==> {
                &&& (#[trigger] entries[j]).candidate_idx == j
                &&& entries[j].is_accepted ==> {
                    &&& entries[j].val_subscores is Some
                    &&& (entries[j].val_subscores->0).contains_key(id)
                    &&& !(entries[j].val_subscores->0)[id].nan()
                }
            },
        entries[i].is_accepted,
    ensures
        best_of(entries, id).contains(i as usize) <==> forall|j: int|
            0 <= j < entries.len() && (#[trigger] entries[j]).is_accepted ==> !(
            entries[i].val_subscores->0)[id].lt((entries[j].val_subscores->0)[id]),
{
    let n = entries.len();
    let best = best_score(entries, id, n);
    lemma_best_score(entries, id, n);
    lemma_reaching(entries, id, best, n, i);
    let own = (entries[i].val_subscores->0)[id];
    assert(!best.lt(own));
    if own.ge(best) {
        assert forall|j: int| 0 <= j < n && (#[trigger] entries[j]).is_accepted implies !own.lt(
            (entries[j].val_subscores->0)[id],
        ) by {
            assert(!best.lt((entries[j].val_subscores->0)[id]));
        }
    } else {
        assert(best != lowest());
        let j = choose|j: int|
            0 <= j < n && (#[trigger] entries[j]).is_accepted && (
            entries[j].val_subscores->0)[id] == best;
        assert(own.lt((entries[j].val_subscores->0)[id]));
    }
}

proof fn lemma_best_score(entries: Seq<CandidateSummaryEntryView>, id: Seq<char>, n: nat)
    requires
        n <= entries.len(),
        forall|j: int|
            0 <= j < entries.len() && (#[trigger] entries[j]).is_accepted ==> {
                &&& entries[j].val_subscores is Some
                &&& (entries[j].val_subscores->0).contains_key(id)
                &&& !(entries[j].val_subscores->0)[id].nan()
            },
    ensures
        ({
            let best = best_score(entries, id, n);
            &&& !best.nan()
            &&& forall|j: int|
                0 <= j < n && (#[trigger] entries[j]).is_accepted ==> !best.lt(
                    (entries[j].val_subscores->0)[id],
                )
            &&& best == lowest() || exists|j: int|
                0 <= j < n && (#[trigger] entries[j]).is_accepted && (
                entries[j].val_subscores->0)[id] == best
        }),
    decreases n,
{
    assert(0xfff0_0000_0000_0000u64 % 0x8000_0000_0000_0000u64 == 0x7ff0_0000_0000_0000u64)
        by (bit_vector);
    if n > 0 {
        let m = (n - 1) as nat;
        lemma_best_score(entries, id, m);
        let before = best_score(entries, id, m);
        let best = best_score(entries, id, n);
        if entries[n - 1].is_accepted {
            assert(scored(entries[n - 1]));
            if best != lowest() {
                if best == before {
                    let j = choose|j: int|
                        0 <= j < m && (#[trigger] entries[j]).is_accepted && (
                        entries[j].val_subscores->0)[id] == best;
                    assert(entries[j].is_accepted);
                } else {
                    assert((entries[n - 1].val_subscores->0)[id] == best);
                }
            }
        }
    }
}

proof fn lemma_reaching(
    entries: Seq<CandidateSummaryEntryView>,
    id: Seq<char>,
    best: Score,
    n: nat,
    i: int,
)
    requires
        n <= entries.len() <= usize::MAX,
        0 <= i < entries.len(),
        forall|j: int|
            0 <= j < entries.len() ==> (#[trigger] entries[j]).candidate_idx == j,
    ensures
        reaching(entries, id, best, n).contains(i as usize) <==> i < n && entries[i].is_accepted
            && score_or_lowest(entries[i], id).ge(best),
    decreases n,
{
    if n > 0 {
        let m = (n - 1) as nat;
        lemma_reaching(entries, id, best, m, i);
        let before = reaching(entries, id, best, m);
        let after = reaching(entries, id, best, n);
        assert(entries[n - 1].candidate_idx == n - 1);
        if entries[n - 1].is_accepted && score_or_lowest(entries[n - 1], id).ge(best) {
            if before.contains(i as usize) {
                let j = choose|j: int| 0 <= j < before.len() && before[j] == i as usize;
                assert(after[j] == i as usize);
            }
            if i == n - 1 {
                assert(after[before.len() as int] == i as usize);
            }
            if after.contains(i as usize) && i != n - 1 {
                let j = choose|j: int| 0 <= j < after.len() && after[j] == i as usize;
                assert(before[j] == i as usize);
            }
        }
    }
}

/// What a summary is made of, as it is loaded from a store. `aggregates` holds the mean of the
/// scores on the validation set for each of the candidates.
pub struct SummarySources<'a> {
    pub run: &'a OptimizationRun,
    pub val_ids: &'a [String],
    pub candidates: &'a [CandidateRecord],
    pub evaluations: &'a [EvaluationRecord],
    pub proposals: &'a [ProposalRecord],
    pub aggregates: &'a [Score],
}

impl<'a> View for SummarySources<'a> {
    type V = Sources;

    open spec fn view(&self) -> Sources {
        Sources {
            run: self.run@,
            val_ids: views(self.val_ids@),
            candidates: views(self.candidates@),
            evaluations: views(self.evaluations@),
            proposals: views(self.proposals@),
            aggregates: self.aggregates@,
        }
    }
}

impl<'a> SummarySources<'a> {
    fn accepted_entry(&self, i: usize) -> (r: CandidateSummaryEntry)
        requires
            i < self.candidates@.len(),
            i < self.aggregates@.len(),
        ensures
            r@ == self@.accepted_entry(i as int),
    {
        let record: &CandidateRecord = &self.candidates[i];
        assert(self@.candidates[i as int] == record@);
        let id: &String = &record.candidate.id;
        let (before, after, mutated): (Option<Score>, Option<Score>, Option<String>) = match
            find_accepted(self.proposals, id) {
            Some(k) => (
                Some(self.proposals[k].before_score),
                Some(self.proposals[k].after_score),
                first_of(&self.proposals[k].selected_components),
            ),
            None => (None, None, None),
        };
        let max: u64 = self.run.config.max_metric_calls;
        CandidateSummaryEntry {
            candidate_idx: i,
            candidate_id: Some(id.clone()),
            is_seed: record.generation == 0,
            is_accepted: true,
            parent_idxs: find_places(self.candidates, &record.parent_ids),
            discovery_eval_count: Some(
                if record.discovery_budget < max {
                    max - record.discovery_budget
                } else {
                    0
                },
            ),
            component_texts: component_texts(&record.candidate.mutable_components),
            component_mutated: mutated,
            val_aggregate_score: Some(self.aggregates[i]),
            val_subscores: Some(val_subscores(self.evaluations, id, self.val_ids)),
            is_on_pareto_front: false,
            minibatch_score_before: before,
            minibatch_score_after: after,
        }
    }

    fn rejected_entry(&self, proposal: &ProposalRecord, i: usize) -> (r: CandidateSummaryEntry)
        ensures
            r@ == self@.rejected_entry(proposal@, i as int),
    {
        assert(views(proposal.parent_ids@).len() == proposal.parent_ids@.len());
        let parent: Option<usize> = if proposal.parent_ids.len() == 0 {
            None
        } else {
            find_place(self.candidates, &proposal.parent_ids[0])
        };
        let texts: StringMap<String> = match parent {
            Some(k) => {
                assert(self@.candidates[k as int] == self.candidates@[k as int]@);
                apply_patches_to_candidate(
                    &self.candidates[k].candidate,
                    proposal.patches.as_slice(),
                )
            },
            None => StringMap::new(),
        };
        CandidateSummaryEntry {
            candidate_idx: i,
            candidate_id: None,
            is_seed: false,
            is_accepted: false,
            parent_idxs: find_places(self.candidates, &proposal.parent_ids),
            discovery_eval_count: None,
            component_texts: texts,
            component_mutated: first_of(&proposal.selected_components),
            val_aggregate_score: None,
            val_subscores: None,
            is_on_pareto_front: false,
            minibatch_score_before: Some(proposal.before_score),
            minibatch_score_after: Some(proposal.after_score),
        }
    }

    /// The entries of the summary, with no candidate marked as one of the Pareto front.
    fn entries(&self) -> (r: Vec<CandidateSummaryEntry>)
        requires
            self.aggregates@.len() == self.candidates@.len(),
            self.candidates@.len() + self.proposals@.len() <= usize::MAX,
        ensures
            views(r@) == self@.entries(),
    {
        let ghost whole = self@.entries();
        let ghost rejected = rejected_proposals(self@.proposals);
        let ghost all = self@.proposals;
        let n: usize = self.candidates.len();
        proof {
            lemma_rejected_len(all);
        }
        let mut r: Vec<CandidateSummaryEntry> = Vec::new();
        let mut i: usize = 0;
        assert(views(r@) =~= whole.take(0));
        while i < n
            invariant
                i <= n,
                n == self.candidates@.len(),
                n == self@.candidates.len(),
                self.aggregates@.len() == n,
                whole == self@.entries(),
                whole.len() >= n,
                views(r@) == whole.take(i as int),
            decreases n - i,
        {
            let e: CandidateSummaryEntry = self.accepted_entry(i);
            proof {
                lemma_views_push(r@, e);
                lemma_take_next(whole, i as int);
            }
            r.push(e);
            i = i + 1;
        }
        let mut k: usize = 0;
        assert(all.take(0) =~= Seq::empty());
        while k < self.proposals.len()
            invariant
                k <= self.proposals@.len(),
                n == self.candidates@.len(),
                n == self@.candidates.len(),
                n + self.proposals@.len() <= usize::MAX,
                all == self@.proposals,
                all.len() == self.proposals@.len(),
                rejected == rejected_proposals(all),
                whole == self@.entries(),
                whole.len() == n + rejected.len(),
                rejected_proposals(all.take(k as int)).len() <= k,
                rejected_proposals(all.take(k as int)).len() <= rejected.len(),
                r@.len() == n + rejected_proposals(all.take(k as int)).len(),
                views(r@) == whole.take(r@.len() as int),
            decreases self.proposals@.len() - k,
        {
            let ghost seen = rejected_proposals(all.take(k as int));
            proof {
                assert(all.take(k + 1).drop_last() =~= all.take(k as int));
                lemma_rejected_prefix(all, (k + 1) as nat);
            }
            let p: &ProposalRecord = &self.proposals[k];
            assert(all[k as int] == p@);
            if !p.accepted {
                let place: usize = r.len();
                let e: CandidateSummaryEntry = self.rejected_entry(p, place);
                proof {
                    let next = rejected_proposals(all.take(k + 1));
                    assert(all.take(k + 1).last() == p@);
                    assert(next == seen.push(p@));
                    assert(next[seen.len() as int] == rejected[seen.len() as int]);
                    assert(whole[place as int] == e@);
                    lemma_views_push(r@, e);
                    lemma_take_next(whole, place as int);
                }
                r.push(e);
            }
            k = k + 1;
        }
        proof {
            assert(all.take(k as int) =~= all);
            assert(whole.take(r@.len() as int) =~= whole);
        }
        r
    }
}

proof fn lemma_rejected_len(proposals: Seq<ProposalRecordView>)
    ensures
        rejected_proposals(proposals).len() <= proposals.len(),
    decreases proposals.len(),
{
    if proposals.len() > 0 {
        lemma_rejected_len(proposals.drop_last());
    }
}

/// The proposals rejected among the first are the first of those rejected.
proof fn lemma_rejected_prefix(proposals: Seq<ProposalRecordView>, n: nat)
    requires
        n <= proposals.len(),
    ensures
        ({
            let some = rejected_proposals(proposals.take(n as int));
            let all = rejected_proposals(proposals);
            &&& some.len() <= all.len()
            &&& all.take(some.len() as int) == some
            &&& forall|i: int| 0 <= i < some.len() ==> #[trigger] some[i] == all[i]
        }),
    decreases proposals.len(),
{
    let some = rejected_proposals(proposals.take(n as int));
    let all = rejected_proposals(proposals);
    if n == proposals.len() {
        assert(proposals.take(n as int) =~= proposals);
        assert(all.take(all.len() as int) =~= all);
    } else {
        let shorter = proposals.drop_last();
        lemma_rejected_prefix(shorter, n);
        assert(shorter.take(n as int) =~= proposals.take(n as int));
        assert(all.take(some.len() as int) =~= some);
    }
}

fn holds_index(idxs: &Vec<usize>, idx: usize) -> (r: bool)
    ensures
        r == idxs@.contains(idx),
{
    let mut i: usize = 0;
    while i < idxs.len()
        invariant
            i <= idxs@.len(),
            forall|j: int| 0 <= j < i ==> idxs@[j] != idx,
        decreases idxs@.len() - i,
    {
        if idxs[i] == idx {
            return true;
        }
        i = i + 1;
    }
    false
}

/// Makes the summary of a run at a moment, in seconds since the start of 1970.
pub fn build_gepa_summary(sources: &SummarySources, stats: &StoreStats, secs: u64) -> (r:
    GepaSummary)
    requires
        sources.aggregates@.len() == sources.candidates@.len(),
        sources.candidates@.len() + sources.proposals@.len() <= usize::MAX,
    ensures
        r@ == summary_of(sources@, stats@, secs as nat),
{
    let entries: Vec<CandidateSummaryEntry> = sources.entries();
    let n: usize = entries.len();
    let ghost plain = sources@.entries();
    let ghost val_ids = sources@.val_ids;
    let ghost target = marked(plain, val_ids);
    assert(val_ids.len() == sources.val_ids@.len());
    assert(plain.len() == n);
    let mut front: StringMap<Vec<usize>> = StringMap::new();
    let mut v: usize = 0;
    while v < sources.val_ids.len()
        invariant
            v <= sources.val_ids@.len(),
            val_ids == views(sources.val_ids@),
            plain == views(entries@),
            forall|k: Seq<char>| #[trigger]
                front@.contains_key(k) <==> exists|j: int| 0 <= j < v && val_ids[j] == k,
            forall|k: Seq<char>| #[trigger]
                front@.contains_key(k) ==> front@[k] == best_of(plain, k),
        decreases sources.val_ids@.len() - v,
    {
        let ghost before = front@;
        let id: String = sources.val_ids[v].clone();
        let best: Vec<usize> = best_candidates(entries.as_slice(), &id);
        assert(val_ids[v as int] == id@);
        front.insert(id, best);
        assert forall|k: Seq<char>| #[trigger] front@.contains_key(k) <==> exists|j: int|
            0 <= j < v + 1 && val_ids[j] == k by {
            if front@.contains_key(k) {
                if k == id@ {
                    assert(val_ids[v as int] == k);
                } else {
                    assert(before.contains_key(k));
                    let j = choose|j: int| 0 <= j < v && val_ids[j] == k;
                    assert(0 <= j < v + 1 && val_ids[j] == k);
                }
            }
            if exists|j: int| 0 <= j < v + 1 && val_ids[j] == k {
                let j = choose|j: int| 0 <= j < v + 1 && val_ids[j] == k;
                if j < v {
                    assert(before.contains_key(k));
                }
            }
        }
        v = v + 1;
    }
    proof {
        let wanted = best_per_example(plain, val_ids);
        assert forall|k: Seq<char>| front@.contains_key(k) <==> wanted.contains_key(k) by {
            if val_ids.contains(k) {
                let j = choose|j: int| 0 <= j < val_ids.len() && val_ids[j] == k;
                assert(0 <= j < v && val_ids[j] == k);
            }
        }
        assert(front@ =~= wanted);
    }
    let frontier: Vec<usize> = compute_pareto_front_idxs(entries.as_slice(), sources.val_ids);
    proof {
        front_holds_unbeaten_candidates(plain, val_ids, plain.len());
    }
    let mut candidates: Vec<CandidateSummaryEntry> = Vec::new();
    let mut i: usize = 0;
    assert(views(candidates@) =~= target.take(0));
    while i < entries.len()
        invariant
            i <= entries@.len(),
            plain == views(entries@),
            plain.len() == entries@.len(),
            forall|k: int|
                0 <= k < plain.len() ==> (#[trigger] frontier@.contains(k as usize) <==> on_front(
                    plain,
                    val_ids,
                    k,
                )),
            target == marked(plain, val_ids),
            views(candidates@) == target.take(i as int),
        decreases entries@.len() - i,
    {
        let on: bool = holds_index(&frontier, i);
        let mut e: CandidateSummaryEntry = entries[i].duplicate();
        e.is_on_pareto_front = on;
        proof {
            assert(plain[i as int] == entries@[i as int]@);
            assert(frontier@.contains(i) == frontier@.contains(i as int as usize));
            assert(e@ =~= target[i as int]);
            lemma_views_push(candidates@, e);
            lemma_take_next(target, i as int);
        }
        candidates.push(e);
        i = i + 1;
    }
    assert(target.take(i as int) =~= target);
    GepaSummary {
        schema_version: "1".to_string(),
        run_id: sources.run.run_id.clone(),
        experiment_id: sources.run.experiment_id.clone(),
        completed_at: rfc3339(secs),
        task_lm: sources.run.config.task_lm.clone(),
        reflection_lm: sources.run.config.reflection_lm.clone(),
        seed: 0,
        max_metric_calls: sources.run.config.max_metric_calls,
        total_metric_calls: stats.metric_calls_used,
        num_val_examples: sources.val_ids.len(),
        val_example_ids: duplicate_all(sources.val_ids),
        candidates,
        pareto_front_per_val_example: front,
    }
}

} // verus!
