//! Laws of the summary of a run.

use vstd::prelude::*;

use crate::calendar::timestamp;
use crate::engine::{all_patched, patch_error, patched};
use crate::gepa_summary::{
    accepted_proposal, beats, best_candidates_have_the_greatest_score,
    front_holds_unbeaten_candidates, front_idxs, leniently_patched, on_front, place_of, places_of,
    rejected_proposals, scored, subscore, summary_of, text_value, texts_of, val_score,
    CandidateSummaryEntryView, Sources,
};
use crate::json::compact;
use crate::model::{
    CandidateRecordView, CandidateView, ComponentPatchView, ComponentValueView,
    EvaluationRecordView, HarnessOptErrorView, MutableComponentView, ProposalRecordView, Split,
    StoreStatsView,
};
use crate::score::Score;

verus! {

/// The score of an entry on an example; zero where it has none.
pub open spec fn score_on(entry: CandidateSummaryEntryView, id: Seq<char>) -> Score {
    match entry.val_subscores {
        Some(scores) if scores.contains_key(id) => scores[id],
        _ => Score { bits: 0 },
    }
}

/// Whether an entry is an accepted candidate that has scores.
pub open spec fn takes_part(entry: CandidateSummaryEntryView) -> bool {
    entry.is_accepted && entry.val_subscores is Some
}

proof fn lemma_unbeaten(
    entries: Seq<CandidateSummaryEntryView>,
    val_ids: Seq<Seq<char>>,
    i: int,
)
    requires
        0 <= i < entries.len(),
    ensures
        on_front(entries, val_ids, i) <==> takes_part(entries[i]) && forall|j: int|
            0 <= j < entries.len() && j != i && takes_part(#[trigger] entries[j])
                ==> holds_somewhere(entries[i], entries[j], val_ids),
{
    if takes_part(entries[i]) {
        assert forall|j: int| 0 <= j < entries.len() && takes_part(#[trigger] entries[j]) implies (
        beats(entries[j].val_subscores->0, entries[i].val_subscores->0, val_ids)
            <==> !holds_somewhere(entries[i], entries[j], val_ids)) by {
            assert(forall|id: Seq<char>|
                #![trigger score_on(entries[j], id)]
                score_on(entries[j], id) == subscore(entries[j].val_subscores->0, id));
            assert(forall|id: Seq<char>|
                #![trigger score_on(entries[i], id)]
                score_on(entries[i], id) == subscore(entries[i].val_subscores->0, id));
            if beats(entries[j].val_subscores->0, entries[i].val_subscores->0, val_ids) {
                assert forall|k: int| 0 <= k < val_ids.len() implies score_on(
                    entries[i],
                    #[trigger] val_ids[k],
                ).lt(score_on(entries[j], val_ids[k])) by {
                    assert(subscore(entries[i].val_subscores->0, val_ids[k]).lt(
                        subscore(entries[j].val_subscores->0, val_ids[k]),
                    ));
                }
            }
            if !holds_somewhere(entries[i], entries[j], val_ids) {
                assert forall|k: int| 0 <= k < val_ids.len() implies subscore(
                    entries[i].val_subscores->0,
                    #[trigger] val_ids[k],
                ).lt(subscore(entries[j].val_subscores->0, val_ids[k])) by {
                    assert(score_on(entries[i], val_ids[k]).lt(score_on(entries[j], val_ids[k])));
                }
            }
        }
    }
}

/// A candidate is off the front exactly when another has a greater score than it on every example;
/// one example on which it is not beaten by the other is enough.
pub proof fn one_example_keeps_a_candidate_from_being_beaten(
    entries: Seq<CandidateSummaryEntryView>,
    val_ids: Seq<Seq<char>>,
    i: int,
)
    requires
        0 <= i < entries.len() <= usize::MAX,
    ensures
        front_idxs(entries, val_ids, entries.len()).contains(i as usize) <==> takes_part(
            entries[i],
        ) && forall|j: int|
            0 <= j < entries.len() && j != i && takes_part(#[trigger] entries[j])
                ==> holds_somewhere(entries[i], entries[j], val_ids),
{
    front_holds_unbeaten_candidates(entries, val_ids, entries.len());
    lemma_unbeaten(entries, val_ids, i);
}

/// A candidate with the strictly greatest score on an example is on the front, wherever the
/// example stands.
pub proof fn the_best_on_an_example_is_on_the_front(
    entries: Seq<CandidateSummaryEntryView>,
    val_ids: Seq<Seq<char>>,
    i: int,
    k: int,
)
    requires
        0 <= i < entries.len() <= usize::MAX,
        0 <= k < val_ids.len(),
        takes_part(entries[i]),
        forall|j: int|
            0 <= j < entries.len() && j != i && takes_part(#[trigger] entries[j]) ==> score_on(
                entries[j],
                val_ids[k],
            ).lt(score_on(entries[i], val_ids[k])),
    ensures
        front_idxs(entries, val_ids, entries.len()).contains(i as usize),
{
    one_example_keeps_a_candidate_from_being_beaten(entries, val_ids, i);
    assert forall|j: int|
        0 <= j < entries.len() && j != i && takes_part(#[trigger] entries[j]) implies
        holds_somewhere(entries[i], entries[j], val_ids) by {
        assert(!score_on(entries[i], val_ids[k]).lt(score_on(entries[j], val_ids[k])));
    }
}

/// The front does not depend on the order of the examples, nor on how often one is listed.
pub proof fn the_front_does_not_depend_on_the_order_of_examples(
    entries: Seq<CandidateSummaryEntryView>,
    val_ids: Seq<Seq<char>>,
    other: Seq<Seq<char>>,
    n: nat,
)
    requires
        n <= entries.len(),
        forall|id: Seq<char>| #[trigger] val_ids.contains(id) <==> other.contains(id),
    ensures
        front_idxs(entries, val_ids, n) == front_idxs(entries, other, n),
    decreases n,
{
    if n > 0 {
        let i = n - 1;
        the_front_does_not_depend_on_the_order_of_examples(entries, val_ids, other, i as nat);
        assert forall|id: Seq<char>| #[trigger] other.contains(id) <==> val_ids.contains(id) by {
            assert(val_ids.contains(id) <==> other.contains(id));
        }
        if on_front(entries, val_ids, i) {
            lemma_same_beats(entries, val_ids, other, i);
        }
        if on_front(entries, other, i) {
            lemma_same_beats(entries, other, val_ids, i);
        }
    }
}

proof fn lemma_same_beats(
    entries: Seq<CandidateSummaryEntryView>,
    val_ids: Seq<Seq<char>>,
    other: Seq<Seq<char>>,
    i: int,
)
    requires
        0 <= i < entries.len(),
        forall|id: Seq<char>| #[trigger] val_ids.contains(id) <==> other.contains(id),
        on_front(entries, val_ids, i),
    ensures
        on_front(entries, other, i),
{
    assert forall|j: int|
        0 <= j < entries.len() && j != i && scored(#[trigger] entries[j]) implies !beats(
        entries[j].val_subscores->0,
        entries[i].val_subscores->0,
        other,
    ) by {
        let better = entries[j].val_subscores->0;
        let worse = entries[i].val_subscores->0;
        if beats(better, worse, other) {
            assert(other.contains(other[0]));
            assert(val_ids.contains(other[0]));
            assert(val_ids.len() > 0);
            assert forall|k: int| 0 <= k < val_ids.len() implies subscore(
                worse,
                #[trigger] val_ids[k],
            ).lt(subscore(better, val_ids[k])) by {
                assert(val_ids.contains(val_ids[k]));
                assert(other.contains(val_ids[k]));
                let m = choose|m: int| 0 <= m < other.len() && other[m] == val_ids[k];
                assert(subscore(worse, other[m]).lt(subscore(better, other[m])));
            }
            assert(beats(better, worse, val_ids));
        }
    }
}

proof fn lemma_val_score(
    evaluations: Seq<EvaluationRecordView>,
    candidate_id: Seq<char>,
    example_id: Seq<char>,
    e: int,
)
    requires
        0 <= e < evaluations.len(),
        evaluations[e].split == Split::Val,
        evaluations[e].candidate_id == candidate_id,
        evaluations[e].example_id == example_id,
        forall|l: int|
            e < l < evaluations.len() ==> !((#[trigger] evaluations[l]).split == Split::Val
                && evaluations[l].candidate_id == candidate_id && evaluations[l].example_id
                == example_id),
    ensures
        val_score(evaluations, candidate_id, example_id) == evaluations[e].score,
    decreases evaluations.len(),
{
    let last = evaluations.len() - 1;
    if e < last {
        let rest = evaluations.drop_last();
        assert(rest[e] == evaluations[e]);
        assert forall|l: int| e < l < rest.len() implies !((#[trigger] rest[l]).split == Split::Val
            && rest[l].candidate_id == candidate_id && rest[l].example_id == example_id) by {
            assert(rest[l] == evaluations[l]);
        }
        assert(evaluations[last] == evaluations.last());
        lemma_val_score(rest, candidate_id, example_id, e);
    }
}

proof fn lemma_no_val_score(
    evaluations: Seq<EvaluationRecordView>,
    candidate_id: Seq<char>,
    example_id: Seq<char>,
)
    requires
        forall|l: int|
            0 <= l < evaluations.len() ==> !((#[trigger] evaluations[l]).split == Split::Val
                && evaluations[l].candidate_id == candidate_id && evaluations[l].example_id
                == example_id),
    ensures
        val_score(evaluations, candidate_id, example_id) == (Score { bits: 0 }),
    decreases evaluations.len(),
{
    if evaluations.len() > 0 {
        let rest = evaluations.drop_last();
        assert(evaluations[evaluations.len() - 1] == evaluations.last());
        assert forall|l: int| 0 <= l < rest.len() implies !((#[trigger] rest[l]).split == Split::Val
            && rest[l].candidate_id == candidate_id && rest[l].example_id == example_id) by {
            assert(rest[l] == evaluations[l]);
        }
        lemma_no_val_score(rest, candidate_id, example_id);
    }
}

/// The entry of a candidate has a score of every example of the validation set and of no other:
/// the score of the latest record of the candidate on the example in the validation split.
pub proof fn candidates_have_the_scores_of_their_latest_records(
    sources: Sources,
    stats: StoreStatsView,
    secs: nat,
    i: int,
    e: int,
)
    requires
        0 <= i < sources.candidates.len(),
        0 <= e < sources.evaluations.len(),
        sources.evaluations[e].split == Split::Val,
        sources.evaluations[e].candidate_id == sources.candidates[i].candidate.id,
        forall|l: int|
            e < l < sources.evaluations.len() ==> !((#[trigger] sources.evaluations[l]).split
                == Split::Val && sources.evaluations[l].candidate_id
                == sources.candidates[i].candidate.id && sources.evaluations[l].example_id
                == sources.evaluations[e].example_id),
        sources.val_ids.contains(sources.evaluations[e].example_id),
    ensures
        ({
            let entry = summary_of(sources, stats, secs).candidates[i];
            let id = sources.evaluations[e].example_id;
            &&& entry.val_subscores matches Some(scores)
            &&& scores.contains_key(id)
            &&& scores[id] == sources.evaluations[e].score
        }),
{
    lemma_val_score(
        sources.evaluations,
        sources.candidates[i].candidate.id,
        sources.evaluations[e].example_id,
        e,
    );
}

/// The entry of a candidate has scores of exactly the examples of the validation set, and zero
/// where no record of the validation split has one.
pub proof fn candidates_are_scored_on_the_validation_set(
    sources: Sources,
    stats: StoreStatsView,
    secs: nat,
    i: int,
    id: Seq<char>,
)
    requires
        0 <= i < sources.candidates.len(),
    ensures
        ({
            let entry = summary_of(sources, stats, secs).candidates[i];
            &&& entry.val_subscores matches Some(scores)
            &&& scores.contains_key(id) <==> sources.val_ids.contains(id)
            &&& sources.val_ids.contains(id) && (forall|l: int|
                0 <= l < sources.evaluations.len() ==> !((
                #[trigger] sources.evaluations[l]).split == Split::Val
                    && sources.evaluations[l].candidate_id == sources.candidates[i].candidate.id
                    && sources.evaluations[l].example_id == id)) ==> scores[id] == (Score {
                bits: 0,
            })
        }),
{
    if forall|l: int|
        0 <= l < sources.evaluations.len() ==> !((#[trigger] sources.evaluations[l]).split
            == Split::Val && sources.evaluations[l].candidate_id
            == sources.candidates[i].candidate.id && sources.evaluations[l].example_id == id) {
        lemma_no_val_score(sources.evaluations, sources.candidates[i].candidate.id, id);
    }
}

proof fn lemma_rejected(proposals: Seq<ProposalRecordView>)
    ensures
        rejected_proposals(proposals) == proposals.filter(|p: ProposalRecordView| !p.accepted),
    decreases proposals.len(),
{
    reveal(Seq::filter);
    if proposals.len() > 0 {
        lemma_rejected(proposals.drop_last());
    }
}

proof fn lemma_place(records: Seq<CandidateRecordView>, id: Seq<char>)
    requires
        records.len() <= usize::MAX,
    ensures
        match place_of(records, id) {
            Some(i) => {
                &&& i < records.len()
                &&& records[i as int].candidate.id == id
                &&& forall|j: int|
                    i < j < records.len() ==> (#[trigger] records[j]).candidate.id != id
            },
            None => forall|j: int|
                0 <= j < records.len() ==> (#[trigger] records[j]).candidate.id != id,
        },
    decreases records.len(),
{
    if records.len() > 0 {
        let rest = records.drop_last();
        lemma_place(rest, id);
        if records.last().candidate.id != id {
            assert forall|j: int|
                0 <= j < records.len() && (place_of(records, id) is None || (place_of(
                    records,
                    id,
                )->0) < j) implies (#[trigger] records[j]).candidate.id != id by {
                if j < records.len() - 1 {
                    assert(rest[j] == records[j]);
                }
            }
        }
    }
}

/// The entries are the candidates in their order, each accepted, and behind them the proposals
/// that were not accepted in theirs. A candidate is a seed exactly where its generation is zero,
/// and its count of calls is what is gone of the budget.
pub proof fn summaries_list_candidates_then_rejected_proposals(
    sources: Sources,
    stats: StoreStatsView,
    secs: nat,
)
    requires
        sources.candidates.len() + sources.proposals.len() <= usize::MAX,
    ensures
        ({
            let entries = summary_of(sources, stats, secs).candidates;
            let n = sources.candidates.len() as int;
            let rejected = sources.proposals.filter(|p: ProposalRecordView| !p.accepted);
            &&& entries.len() == n + rejected.len()
            &&& forall|i: int|
                0 <= i < n ==> {
                    let record = sources.candidates[i];
                    let entry = #[trigger] entries[i];
                    &&& entry.candidate_idx == i
                    &&& entry.is_accepted
                    &&& entry.candidate_id == Some(record.candidate.id)
                    &&& entry.is_seed <==> record.generation == 0
                    &&& entry.val_aggregate_score == Some(sources.aggregates[i])
                    &&& entry.discovery_eval_count matches Some(count)
                    &&& record.discovery_budget <= sources.run.config.max_metric_calls ==> count
                        + record.discovery_budget == sources.run.config.max_metric_calls
                    &&& record.discovery_budget > sources.run.config.max_metric_calls ==> count
                        == 0
                }
            &&& forall|k: int|
                0 <= k < rejected.len() ==> {
                    let entry = entries[n + k];
                    let proposal = #[trigger] rejected[k];
                    &&& entry.candidate_idx == n + k
                    &&& !entry.is_accepted
                    &&& !entry.is_seed
                    &&& !entry.is_on_pareto_front
                    &&& entry.candidate_id is None
                    &&& entry.val_subscores is None
                    &&& entry.val_aggregate_score is None
                    &&& entry.discovery_eval_count is None
                    &&& entry.minibatch_score_before == Some(proposal.before_score)
                    &&& entry.minibatch_score_after == Some(proposal.after_score)
                }
        }),
{
    lemma_rejected(sources.proposals);
    lemma_filter_len(sources.proposals);
    let entries = summary_of(sources, stats, secs).candidates;
    let n = sources.candidates.len() as int;
    let rejected = sources.proposals.filter(|p: ProposalRecordView| !p.accepted);
    assert forall|k: int| 0 <= k < rejected.len() implies {
        let entry = entries[n + k];
        &&& entry.candidate_idx == n + k
        &&& entry.minibatch_score_before == Some((#[trigger] rejected[k]).before_score)
    } by {
        assert(sources.entries()[n + k] == sources.rejected_entry(rejected[k], n + k));
    }
}

proof fn lemma_filter_len(proposals: Seq<ProposalRecordView>)
    ensures
        rejected_proposals(proposals).len() <= proposals.len(),
    decreases proposals.len(),
{
    if proposals.len() > 0 {
        lemma_filter_len(proposals.drop_last());
    }
}

proof fn lemma_places(records: Seq<CandidateRecordView>, ids: Seq<Seq<char>>)
    requires
        records.len() <= usize::MAX,
    ensures
        forall|x: int|
            0 <= x < places_of(records, ids).len() ==> {
                let i = #[trigger] places_of(records, ids)[x];
                i < records.len() && ids.contains(records[i as int].candidate.id)
            },
        forall|k: int, j: int|
            #![trigger ids[k], records[j]]
            0 <= k < ids.len() && 0 <= j < records.len() && records[j].candidate.id == ids[k]
                ==> exists|x: int|
                0 <= x < places_of(records, ids).len() && records[(
                #[trigger] places_of(records, ids)[x]) as int].candidate.id == ids[k],
        (forall|k: int|
            0 <= k < ids.len() ==> exists|j: int|
                0 <= j < records.len() && (#[trigger] records[j]).candidate.id
                    == #[trigger] ids[k]) ==> places_of(records, ids).len() == ids.len(),
    decreases ids.len(),
{
    if ids.len() > 0 {
        let rest = ids.drop_last();
        let last = ids.len() - 1;
        lemma_places(records, rest);
        lemma_place(records, ids.last());
        let before = places_of(records, rest);
        let all = places_of(records, ids);
        assert forall|x: int| 0 <= x < all.len() implies {
            let i = #[trigger] all[x];
            i < records.len() && ids.contains(records[i as int].candidate.id)
        } by {
            if x < before.len() {
                assert(before[x] == all[x]);
                let i = before[x];
                assert(rest.contains(records[i as int].candidate.id));
                let k = choose|k: int|
                    0 <= k < rest.len() && rest[k] == records[i as int].candidate.id;
                assert(ids[k] == records[i as int].candidate.id);
            } else {
                assert(ids[last] == ids.last());
            }
        }
        assert forall|k: int, j: int|
            #![trigger ids[k], records[j]]
            0 <= k < ids.len() && 0 <= j < records.len() && records[j].candidate.id
                == ids[k] implies exists|x: int|
            0 <= x < all.len() && records[(#[trigger] all[x]) as int].candidate.id == ids[k] by {
            if k < last {
                assert(rest[k] == ids[k]);
                let x = choose|x: int|
                    0 <= x < before.len() && records[(
                    #[trigger] before[x]) as int].candidate.id == rest[k];
                assert(all[x] == before[x]);
            } else {
                assert(all[before.len() as int] == place_of(records, ids.last())->0);
            }
        }
        if forall|k: int|
            0 <= k < ids.len() ==> exists|j: int|
                0 <= j < records.len() && (#[trigger] records[j]).candidate.id
                    == #[trigger] ids[k] {
            assert forall|k: int| 0 <= k < rest.len() implies exists|j: int|
                0 <= j < records.len() && (#[trigger] records[j]).candidate.id
                    == #[trigger] rest[k] by {
                assert(rest[k] == ids[k]);
                let j = choose|j: int|
                    0 <= j < records.len() && (#[trigger] records[j]).candidate.id == ids[k];
                assert(records[j].candidate.id == rest[k]);
            }
            assert(ids[last] == ids.last());
            let j = choose|j: int|
                0 <= j < records.len() && (#[trigger] records[j]).candidate.id == ids[last];
            assert(records[j].candidate.id == ids.last());
        }
    }
}

/// The parents of an entry are the places of the candidates that its record names: every place is
/// one of a named candidate, every named candidate that there is has its place, and where all of
/// them are there none is missing.
pub proof fn entries_point_to_their_parents(
    sources: Sources,
    stats: StoreStatsView,
    secs: nat,
    i: int,
    named: Seq<Seq<char>>,
)
    requires
        sources.candidates.len() + sources.proposals.len() <= usize::MAX,
        0 <= i < summary_of(sources, stats, secs).candidates.len(),
        i < sources.candidates.len() ==> named == sources.candidates[i].parent_ids,
        i >= sources.candidates.len() ==> named == sources.proposals.filter(
            |p: ProposalRecordView| !p.accepted,
        )[i - sources.candidates.len()].parent_ids,
    ensures
        ({
            let records = sources.candidates;
            let places = summary_of(sources, stats, secs).candidates[i].parent_idxs;
            &&& forall|x: int|
                0 <= x < places.len() ==> (#[trigger] places[x]) < records.len()
                    && named.contains(records[places[x] as int].candidate.id)
            &&& forall|k: int, j: int|
                #![trigger named[k], records[j]]
                0 <= k < named.len() && 0 <= j < records.len() && records[j].candidate.id
                    == named[k] ==> exists|x: int|
                    0 <= x < places.len() && records[(#[trigger] places[x]) as int].candidate.id
                        == named[k]
            &&& (forall|k: int|
                0 <= k < named.len() ==> exists|j: int|
                    0 <= j < records.len() && (#[trigger] records[j]).candidate.id
                        == #[trigger] named[k]) ==> places.len() == named.len()
        }),
{
    lemma_rejected(sources.proposals);
    assert(summary_of(sources, stats, secs).candidates[i].parent_idxs
        == sources.entries()[i].parent_idxs);
    assert(sources.entries()[i].parent_idxs == places_of(sources.candidates, named));
    lemma_places(sources.candidates, named);
}

proof fn lemma_accepted_proposal(proposals: Seq<ProposalRecordView>, id: Seq<char>)
    ensures
        match accepted_proposal(proposals, id) {
            Some(p) => exists|e: int|
                0 <= e < proposals.len() && proposals[e] == p && (
                #[trigger] proposals[e]).accepted && proposals[e].candidate_id == Some(id)
                    && forall|l: int|
                    e < l < proposals.len() ==> !((#[trigger] proposals[l]).accepted
                        && proposals[l].candidate_id == Some(id)),
            None => forall|l: int|
                0 <= l < proposals.len() ==> !((#[trigger] proposals[l]).accepted
                    && proposals[l].candidate_id == Some(id)),
        },
    decreases proposals.len(),
{
    if proposals.len() > 0 {
        let rest = proposals.drop_last();
        let last = proposals.len() - 1;
        lemma_accepted_proposal(rest, id);
        assert(proposals[last] == proposals.last());
        if proposals.last().accepted && proposals.last().candidate_id == Some(id) {
        } else {
            match accepted_proposal(rest, id) {
                Some(p) => {
                    let e = choose|e: int|
                        0 <= e < rest.len() && rest[e] == p && (#[trigger] rest[e]).accepted
                            && rest[e].candidate_id == Some(id) && forall|l: int|
                            e < l < rest.len() ==> !((#[trigger] rest[l]).accepted
                                && rest[l].candidate_id == Some(id));
                    assert(proposals[e] == rest[e]);
                    assert forall|l: int| e < l < proposals.len() implies !((
                    #[trigger] proposals[l]).accepted && proposals[l].candidate_id == Some(id)) by {
                        if l < last {
                            assert(rest[l] == proposals[l]);
                        }
                    }
                },
                None => {
                    assert forall|l: int| 0 <= l < proposals.len() implies !((
                    #[trigger] proposals[l]).accepted && proposals[l].candidate_id == Some(id)) by {
                        if l < last {
                            assert(rest[l] == proposals[l]);
                        }
                    }
                },
            }
        }
    }
}

/// A candidate has the scores of the batch and the first selected component of the latest accepted
/// proposal that made it; a candidate that no proposal made has none.
pub proof fn candidates_have_the_scores_of_their_proposals(
    sources: Sources,
    stats: StoreStatsView,
    secs: nat,
    i: int,
    e: int,
)
    requires
        0 <= i < sources.candidates.len(),
        0 <= e < sources.proposals.len(),
        sources.proposals[e].accepted,
        sources.proposals[e].candidate_id == Some(sources.candidates[i].candidate.id),
        forall|l: int|
            e < l < sources.proposals.len() ==> !((#[trigger] sources.proposals[l]).accepted
                && sources.proposals[l].candidate_id == Some(
                sources.candidates[i].candidate.id,
            )),
    ensures
        ({
            let entry = summary_of(sources, stats, secs).candidates[i];
            let proposal = sources.proposals[e];
            &&& entry.minibatch_score_before == Some(proposal.before_score)
            &&& entry.minibatch_score_after == Some(proposal.after_score)
            &&& proposal.selected_components.len() > 0 ==> entry.component_mutated == Some(
                proposal.selected_components[0],
            )
            &&& proposal.selected_components.len() == 0 ==> entry.component_mutated is None
        }),
{
    let id = sources.candidates[i].candidate.id;
    lemma_accepted_proposal(sources.proposals, id);
    let p = accepted_proposal(sources.proposals, id);
    assert(p == Some(sources.proposals[e])) by {
        assert(p is Some) by {
            if p is None {
                assert(!(sources.proposals[e].accepted && sources.proposals[e].candidate_id == Some(
                    id,
                )));
            }
        }
        let f = choose|f: int|
            0 <= f < sources.proposals.len() && sources.proposals[f] == p->0 && (
            #[trigger] sources.proposals[f]).accepted && sources.proposals[f].candidate_id == Some(
                id,
            ) && forall|l: int|
                f < l < sources.proposals.len() ==> !((#[trigger] sources.proposals[l]).accepted
                    && sources.proposals[l].candidate_id == Some(id));
        if f < e {
            assert(!(sources.proposals[e].accepted && sources.proposals[e].candidate_id == Some(
                id,
            )));
        }
        if e < f {
            assert(!(sources.proposals[f].accepted && sources.proposals[f].candidate_id == Some(
                id,
            )));
        }
    }
}

/// The texts of a candidate are those of its components: one for each, and of a text component the
/// whole text.
pub proof fn candidates_show_the_texts_of_their_components(
    sources: Sources,
    stats: StoreStatsView,
    secs: nat,
    i: int,
    id: Seq<char>,
)
    requires
        0 <= i < sources.candidates.len(),
    ensures
        ({
            let texts = summary_of(sources, stats, secs).candidates[i].component_texts;
            let components = sources.candidates[i].candidate.mutable_components;
            &&& texts.contains_key(id) <==> components.contains_key(id)
            &&& components.contains_key(id) && components[id].value is Text ==> texts[id]
                == components[id].value->text
        }),
{
}

/// Refused patches are passed over: a patch that is refused changes nothing, and one that is not
/// has the effect that it has alone.
pub proof fn refused_patches_are_passed_over(
    candidate: CandidateView,
    patches: Seq<ComponentPatchView>,
    patch: ComponentPatchView,
)
    ensures
        ({
            let before = leniently_patched(candidate, patches);
            let after = leniently_patched(candidate, patches.push(patch));
            if patch_error(before, patch) is Some {
                after == before
            } else {
                after == patched(before, patch)
            }
        }),
        leniently_patched(candidate, Seq::empty()) == candidate,
{
    assert(patches.push(patch).drop_last() =~= patches);
}

/// Whether there is an example on which one entry does not have a smaller score than another, or
/// no example at all.
pub open spec fn holds_somewhere(
    entry: CandidateSummaryEntryView,
    other: CandidateSummaryEntryView,
    val_ids: Seq<Seq<char>>,
) -> bool {
    val_ids.len() == 0 || exists|k: int|
        0 <= k < val_ids.len() && !score_on(entry, #[trigger] val_ids[k]).lt(
            score_on(other, val_ids[k]),
        )
}

/// The mark of the front in a summary: a candidate has it unless another candidate has a greater
/// score on every example of the validation set.
pub proof fn summaries_mark_unbeaten_candidates(
    sources: Sources,
    stats: StoreStatsView,
    secs: nat,
    i: int,
)
    requires
        0 <= i < sources.candidates.len(),
    ensures
        ({
            let entries = summary_of(sources, stats, secs).candidates;
            entries[i].is_on_pareto_front <==> forall|j: int|
                0 <= j < sources.candidates.len() && j != i ==> holds_somewhere(
                    entries[i],
                    #[trigger] entries[j],
                    sources.val_ids,
                )
        }),
{
    let plain = sources.entries();
    let ids = sources.val_ids;
    let entries = summary_of(sources, stats, secs).candidates;
    let n = sources.candidates.len() as int;
    lemma_unbeaten(plain, ids, i);
    assert forall|j: int| 0 <= j < plain.len() implies takes_part(#[trigger] plain[j]) == (j
        < n) by {}
    assert forall|j: int| 0 <= j < n implies holds_somewhere(entries[i], #[trigger] entries[j], ids)
        == holds_somewhere(plain[i], plain[j], ids) by {
        assert(entries[j].val_subscores == plain[j].val_subscores);
        assert(entries[i].val_subscores == plain[i].val_subscores);
        assert(forall|id: Seq<char>| #[trigger] score_on(entries[j], id) == score_on(plain[j], id));
        assert(forall|id: Seq<char>| #[trigger] score_on(entries[i], id) == score_on(plain[i], id));
    }
    if entries[i].is_on_pareto_front {
        assert forall|j: int| 0 <= j < n && j != i implies holds_somewhere(
            entries[i],
            #[trigger] entries[j],
            ids,
        ) by {
            assert(takes_part(plain[j]));
        }
    } else {
        assert(takes_part(plain[i]));
        let j = choose|j: int|
            0 <= j < plain.len() && j != i && takes_part(#[trigger] plain[j]) && !holds_somewhere(
                plain[i],
                plain[j],
                ids,
            );
        assert(!holds_somewhere(entries[i], entries[j], ids));
    }
}

/// The best candidates of an example: of every example of the validation set, and of no other,
/// those are listed that no candidate has a greater score than, where all scores are numbers.
pub proof fn summaries_list_the_best_of_every_example(
    sources: Sources,
    stats: StoreStatsView,
    secs: nat,
    id: Seq<char>,
    i: int,
)
    requires
        sources.candidates.len() + sources.proposals.len() <= usize::MAX,
        0 <= i < sources.candidates.len(),
        sources.val_ids.contains(id),
        forall|j: int|
            0 <= j < sources.candidates.len() ==> !score_on(
                #[trigger] summary_of(sources, stats, secs).candidates[j],
                id,
            ).nan(),
    ensures
        ({
            let summary = summary_of(sources, stats, secs);
            let entries = summary.candidates;
            &&& forall|k: Seq<char>| #[trigger]
                summary.pareto_front_per_val_example.contains_key(k)
                    <==> sources.val_ids.contains(k)
            &&& summary.pareto_front_per_val_example[id].contains(i as usize) <==> forall|j: int|
                0 <= j < sources.candidates.len() ==> !score_on(entries[i], id).lt(
                    score_on(#[trigger] entries[j], id),
                )
        }),
{
    lemma_filter_len(sources.proposals);
    let plain = sources.entries();
    let entries = summary_of(sources, stats, secs).candidates;
    let n = sources.candidates.len() as int;
    assert forall|j: int| 0 <= j < plain.len() implies {
        &&& (#[trigger] plain[j]).candidate_idx == j
        &&& plain[j].is_accepted == (j < n)
        &&& plain[j].is_accepted ==> {
            &&& plain[j].val_subscores is Some
            &&& (plain[j].val_subscores->0).contains_key(id)
            &&& !(plain[j].val_subscores->0)[id].nan()
            &&& (plain[j].val_subscores->0)[id] == score_on(entries[j], id)
        }
    } by {
        if j < n {
            assert(entries[j].val_subscores == plain[j].val_subscores);
            assert(!score_on(entries[j], id).nan());
        }
    }
    best_candidates_have_the_greatest_score(plain, id, i);
    let own = score_on(entries[i], id);
    if forall|j: int|
        0 <= j < plain.len() && (#[trigger] plain[j]).is_accepted ==> !(
        plain[i].val_subscores->0)[id].lt((plain[j].val_subscores->0)[id]) {
        assert forall|j: int| 0 <= j < n implies !own.lt(score_on(#[trigger] entries[j], id)) by {
            assert(plain[j].is_accepted);
        }
    }
    if forall|j: int| 0 <= j < n ==> !own.lt(score_on(#[trigger] entries[j], id)) {
        assert forall|j: int| 0 <= j < plain.len() && (#[trigger] plain[j]).is_accepted implies !(
        plain[i].val_subscores->0)[id].lt((plain[j].val_subscores->0)[id]) by {
            assert(!own.lt(score_on(entries[j], id)));
        }
    }
}

/// A summary says whose it is, when it was made, with what budget and how much of it was used, and
/// on which examples the candidates were validated.
pub proof fn summaries_say_whose_they_are(sources: Sources, stats: StoreStatsView, secs: nat)
    ensures
        ({
            let summary = summary_of(sources, stats, secs);
            &&& summary.run_id == sources.run.run_id
            &&& summary.experiment_id == sources.run.experiment_id
            &&& summary.completed_at == timestamp(secs)
            &&& summary.task_lm == sources.run.config.task_lm
            &&& summary.reflection_lm == sources.run.config.reflection_lm
            &&& summary.max_metric_calls == sources.run.config.max_metric_calls
            &&& summary.total_metric_calls == stats.metric_calls_used
            &&& summary.val_example_ids == sources.val_ids
            &&& sources.val_ids.len() <= usize::MAX ==> summary.num_val_examples
                == sources.val_ids.len()
            &&& summary.schema_version == "1"@
        }),
{
}

/// Where every parent of an entry is recorded, its parents stand in the order in which they are
/// named, each at the place of its last record.
pub proof fn parents_stand_in_the_order_of_their_names(
    records: Seq<CandidateRecordView>,
    named: Seq<Seq<char>>,
    k: int,
    j: int,
)
    requires
        records.len() <= usize::MAX,
        forall|x: int|
            0 <= x < named.len() ==> exists|y: int|
                0 <= y < records.len() && (#[trigger] records[y]).candidate.id
                    == #[trigger] named[x],
        0 <= k < named.len(),
        0 <= j < records.len(),
        records[j].candidate.id == named[k],
        forall|y: int| j < y < records.len() ==> (#[trigger] records[y]).candidate.id != named[k],
    ensures
        places_of(records, named).len() == named.len(),
        places_of(records, named)[k] == j,
    decreases named.len(),
{
    let before = named.drop_last();
    lemma_place(records, named.last());
    assert(named[named.len() - 1] == named.last());
    let last = place_of(records, named.last());
    assert(last is Some) by {
        let y = choose|y: int|
            0 <= y < records.len() && (#[trigger] records[y]).candidate.id == named[named.len()
                - 1];
        assert(records[y].candidate.id == named.last());
    }
    assert forall|x: int| 0 <= x < before.len() implies exists|y: int|
        0 <= y < records.len() && (#[trigger] records[y]).candidate.id == #[trigger] before[x] by {
        assert(before[x] == named[x]);
    }
    lemma_places(records, before);
    assert(places_of(records, before).len() == before.len());
    if k < named.len() - 1 {
        assert(before[k] == named[k]);
        parents_stand_in_the_order_of_their_names(records, before, k, j);
    } else {
        let i = last->0 as int;
        if i < j {
            assert(records[j].candidate.id != named.last());
        } else if j < i {
            assert(records[i].candidate.id != named[k]);
        }
    }
}

/// The entries have the parents that their records name.
pub proof fn entries_have_the_parents_of_their_records(
    sources: Sources,
    stats: StoreStatsView,
    secs: nat,
    i: int,
)
    requires
        sources.candidates.len() + sources.proposals.len() <= usize::MAX,
        0 <= i < summary_of(sources, stats, secs).candidates.len(),
    ensures
        ({
            let entry = summary_of(sources, stats, secs).candidates[i];
            let n = sources.candidates.len() as int;
            let rejected = sources.proposals.filter(|p: ProposalRecordView| !p.accepted);
            &&& i < n ==> entry.parent_idxs == places_of(
                sources.candidates,
                sources.candidates[i].parent_ids,
            )
            &&& i >= n ==> entry.parent_idxs == places_of(
                sources.candidates,
                rejected[i - n].parent_ids,
            )
            &&& i >= n && rejected[i - n].selected_components.len() > 0 ==> entry.component_mutated
                == Some(rejected[i - n].selected_components[0])
        }),
{
    lemma_rejected(sources.proposals);
}

/// A rejected proposal shows the texts that it would have given to the components of its first
/// parent, as that was last recorded.
pub proof fn rejected_proposals_show_what_they_would_have_made(
    sources: Sources,
    stats: StoreStatsView,
    secs: nat,
    k: int,
    j: int,
    id: Seq<char>,
)
    requires
        sources.candidates.len() + sources.proposals.len() <= usize::MAX,
        0 <= k < sources.proposals.filter(|p: ProposalRecordView| !p.accepted).len(),
        0 <= j < sources.candidates.len(),
        sources.proposals.filter(|p: ProposalRecordView| !p.accepted)[k].parent_ids.len() > 0,
        sources.candidates[j].candidate.id == sources.proposals.filter(
            |p: ProposalRecordView| !p.accepted,
        )[k].parent_ids[0],
        forall|y: int|
            j < y < sources.candidates.len() ==> (#[trigger] sources.candidates[y]).candidate.id
                != sources.candidates[j].candidate.id,
    ensures
        ({
            let proposal = sources.proposals.filter(|p: ProposalRecordView| !p.accepted)[k];
            let entry = summary_of(sources, stats, secs).candidates[sources.candidates.len() + k];
            let made = leniently_patched(sources.candidates[j].candidate, proposal.patches);
            &&& entry.component_texts.contains_key(id) <==> made.mutable_components.contains_key(
                id,
            )
            &&& made.mutable_components.contains_key(id) && made.mutable_components[id].value
                is Text ==> entry.component_texts[id] == made.mutable_components[id].value->text
        }),
{
    lemma_rejected(sources.proposals);
    let proposal = sources.proposals.filter(|p: ProposalRecordView| !p.accepted)[k];
    lemma_place(sources.candidates, proposal.parent_ids[0]);
    let i = place_of(sources.candidates, proposal.parent_ids[0]);
    if i is Some {
        let at = i->0 as int;
        if at < j {
            assert(sources.candidates[j].candidate.id != proposal.parent_ids[0]);
        } else if j < at {
            assert(sources.candidates[at].candidate.id != sources.candidates[j].candidate.id);
        }
    }
}

/// Patches that are all accepted have the same effect whether refused ones would be passed over or
/// not.
pub proof fn accepted_patches_are_none_passed_over(
    candidate: CandidateView,
    patches: Seq<ComponentPatchView>,
)
    requires
        all_patched(candidate, patches) is Ok,
    ensures
        all_patched(candidate, patches) == Ok::<CandidateView, HarnessOptErrorView>(
            leniently_patched(candidate, patches),
        ),
    decreases patches.len(),
{
    if patches.len() > 0 {
        let before = patches.drop_last();
        lemma_split_last(candidate, patches);
        accepted_patches_are_none_passed_over(candidate, before);
    }
}

proof fn lemma_split_last(candidate: CandidateView, patches: Seq<ComponentPatchView>)
    requires
        patches.len() > 0,
        all_patched(candidate, patches) is Ok,
    ensures
        all_patched(candidate, patches.drop_last()) is Ok,
        patch_error(all_patched(candidate, patches.drop_last())->Ok_0, patches.last()) is None,
        all_patched(candidate, patches) == Ok::<CandidateView, HarnessOptErrorView>(
            patched(all_patched(candidate, patches.drop_last())->Ok_0, patches.last()),
        ),
    decreases patches.len(),
{
    if patches.len() == 1 {
        assert(patches.drop_last() =~= Seq::empty());
        assert(patches.drop_first() =~= Seq::empty());
        assert(patches.last() == patches[0]);
        let next = patched(candidate, patches[0]);
        assert(all_patched(next, patches.drop_first()) == Ok::<CandidateView, HarnessOptErrorView>(
            next,
        ));
    } else {
        let rest = patches.drop_first();
        lemma_split_last(patched(candidate, patches[0]), rest);
        assert(rest.drop_last() =~= patches.drop_last().drop_first());
        assert(patches.drop_last()[0] == patches[0]);
    }
}

/// A candidate that no accepted proposal made has no scores of a batch.
pub proof fn candidates_without_a_proposal_have_no_batch_scores(
    sources: Sources,
    stats: StoreStatsView,
    secs: nat,
    i: int,
)
    requires
        0 <= i < sources.candidates.len(),
        forall|l: int|
            0 <= l < sources.proposals.len() ==> !((#[trigger] sources.proposals[l]).accepted
                && sources.proposals[l].candidate_id == Some(
                sources.candidates[i].candidate.id,
            )),
    ensures
        ({
            let entry = summary_of(sources, stats, secs).candidates[i];
            &&& entry.minibatch_score_before is None
            &&& entry.minibatch_score_after is None
            &&& entry.component_mutated is None
        }),
{
    lemma_accepted_proposal(sources.proposals, sources.candidates[i].candidate.id);
}

/// The indices of the front go up, and each stands once.
pub proof fn the_front_is_listed_in_order(
    entries: Seq<CandidateSummaryEntryView>,
    val_ids: Seq<Seq<char>>,
    n: nat,
)
    requires
        n <= entries.len() <= usize::MAX,
    ensures
        forall|x: int, y: int|
            0 <= x < y < front_idxs(entries, val_ids, n).len() ==> (#[trigger] front_idxs(
                entries,
                val_ids,
                n,
            )[x]) < (#[trigger] front_idxs(entries, val_ids, n)[y]),
        forall|x: int|
            0 <= x < front_idxs(entries, val_ids, n).len() ==> (#[trigger] front_idxs(
                entries,
                val_ids,
                n,
            )[x]) < n,
    decreases n,
{
    if n > 0 {
        the_front_is_listed_in_order(entries, val_ids, (n - 1) as nat);
        let before = front_idxs(entries, val_ids, (n - 1) as nat);
        let all = front_idxs(entries, val_ids, n);
        assert forall|x: int| 0 <= x < all.len() implies (#[trigger] all[x]) < n by {
            if x < before.len() {
                assert(all[x] == before[x]);
            }
        }
        assert forall|x: int, y: int| 0 <= x < y < all.len() implies (#[trigger] all[x]) < (
        #[trigger] all[y]) by {
            assert(all[x] == before[x]);
            if y < before.len() {
                assert(all[y] == before[y]);
            }
        }
    }
}

/// What stands for the value of a component: a text for itself, JSON as it is written without white
/// space, and for anything else its kind.
pub proof fn values_are_shown_by_their_kind(
    value: ComponentValueView,
    components: Map<Seq<char>, MutableComponentView>,
    id: Seq<char>,
)
    ensures
        value matches ComponentValueView::Text { text } ==> text_value(value) == text,
        value matches ComponentValueView::Json { value: held } ==> text_value(value) == compact(
            held,
        ),
        value is PromptTemplate ==> text_value(value) == "<PromptTemplate>"@,
        value is PromptContribution ==> text_value(value) == "<PromptContribution>"@,
        texts_of(components).contains_key(id) <==> components.contains_key(id),
        components.contains_key(id) ==> texts_of(components)[id] == text_value(
            components[id].value,
        ),
{
}

/// The best candidates of an example are listed in their order, each once, and only candidates
/// are.
pub proof fn the_best_are_listed_in_order(
    sources: Sources,
    stats: StoreStatsView,
    secs: nat,
    id: Seq<char>,
    x: int,
    y: int,
)
    requires
        sources.candidates.len() + sources.proposals.len() <= usize::MAX,
        sources.val_ids.contains(id),
    ensures
        ({
            let best = summary_of(sources, stats, secs).pareto_front_per_val_example[id];
            &&& 0 <= x < best.len() ==> best[x] < sources.candidates.len()
            &&& 0 <= x < y < best.len() ==> best[x] < best[y]
        }),
{
    lemma_filter_len(sources.proposals);
    let entries = sources.entries();
    let n = entries.len();
    let best = crate::gepa_summary::best_score(entries, id, n);
    lemma_reaching(entries, id, best, n);
    let all = crate::gepa_summary::reaching(entries, id, best, n);
    if 0 <= x < all.len() {
        assert(all[x] < n && entries[all[x] as int].is_accepted);
    }
}

proof fn lemma_reaching(
    entries: Seq<CandidateSummaryEntryView>,
    id: Seq<char>,
    best: Score,
    n: nat,
)
    requires
        n <= entries.len() <= usize::MAX,
        forall|j: int| 0 <= j < entries.len() ==> (#[trigger] entries[j]).candidate_idx == j,
    ensures
        ({
            let all = crate::gepa_summary::reaching(entries, id, best, n);
            &&& forall|x: int|
                0 <= x < all.len() ==> (#[trigger] all[x]) < n && entries[all[x] as int].is_accepted
            &&& forall|x: int, y: int|
                0 <= x < y < all.len() ==> (#[trigger] all[x]) < (#[trigger] all[y])
        }),
    decreases n,
{
    if n > 0 {
        lemma_reaching(entries, id, best, (n - 1) as nat);
        let before = crate::gepa_summary::reaching(entries, id, best, (n - 1) as nat);
        let all = crate::gepa_summary::reaching(entries, id, best, n);
        assert(entries[n - 1].candidate_idx == n - 1);
        assert forall|x: int| 0 <= x < all.len() implies (#[trigger] all[x]) < n
            && entries[all[x] as int].is_accepted by {
            if x < before.len() {
                assert(all[x] == before[x]);
            }
        }
        assert forall|x: int, y: int| 0 <= x < y < all.len() implies (#[trigger] all[x]) < (
        #[trigger] all[y]) by {
            assert(all[x] == before[x]);
            if y < before.len() {
                assert(all[y] == before[y]);
            }
        }
    }
}

} // verus!
