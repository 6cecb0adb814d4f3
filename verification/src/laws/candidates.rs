//! Laws of candidates: their constraints, the proposals that make new ones, and merges.

use vstd::prelude::*;

use crate::engine::{
    batch, derived_id, next_cursor, patch_error, proposed, run_record, scope_error,
    selected_components, value_error,
};
use crate::model::{
    default_config, message_text, runs_for, CandidateEvaluationView, CandidateProposalView,
    CandidateRecordView, CandidateSelection, CandidateView, ComponentConstraintsView,
    ComponentPatchView, ComponentSelection, ComponentValueView, ExampleRunView, FrontierMode,
    HarnessExampleView, HarnessOptErrorView, OptimizationConfigView, PromptContributionView,
};
use crate::pareto::{complement, merged_from};
use crate::string_map::{enumerates, in_order, lemma_enumeration_unique};
use crate::text::{decimal, is_infix};

verus! {

/// The constraints speak of a plain text and of the content of a prompt contribution, and of
/// nothing else: a value of another kind is never refused.
pub proof fn constraints_speak_of_texts(
    id: Seq<char>,
    constraints: ComponentConstraintsView,
    value: ComponentValueView,
    contribution: PromptContributionView,
)
    ensures
        value is Json || value is PromptTemplate ==> value_error(id, constraints, value) is None,
        value_error(id, constraints, ComponentValueView::PromptContribution { contribution })
            == value_error(
            id,
            constraints,
            ComponentValueView::Text { text: contribution.content },
        ),
{
}

/// A text that is too long is refused for its length, whatever else it breaks.
pub proof fn long_texts_are_refused_for_their_length(
    id: Seq<char>,
    constraints: ComponentConstraintsView,
    text: Seq<char>,
    most: usize,
)
    requires
        constraints.max_chars == Some(most),
        text.len() > most,
    ensures
        value_error(id, constraints, ComponentValueView::Text { text }) == Some(
            HarnessOptErrorView::ConstraintViolation {
                component_id: id,
                reason: "text exceeds "@ + decimal(most as nat) + " characters"@,
            },
        ),
{
}

/// Of the terms that are to be preserved, the first that is missing is named.
pub proof fn the_first_missing_term_is_named(
    id: Seq<char>,
    constraints: ComponentConstraintsView,
    text: Seq<char>,
    at: int,
)
    requires
        constraints.max_chars matches Some(most) ==> text.len() <= most,
        0 <= at < constraints.preserve_terms.len(),
        !is_infix(constraints.preserve_terms[at], text),
        forall|i: int| 0 <= i < at ==> is_infix(#[trigger] constraints.preserve_terms[i], text),
    ensures
        value_error(id, constraints, ComponentValueView::Text { text }) == Some(
            HarnessOptErrorView::ConstraintViolation {
                component_id: id,
                reason: "missing preserved term `"@ + constraints.preserve_terms[at] + "`"@,
            },
        ),
{
    lemma_missing(constraints.preserve_terms, text, at);
}

pub proof fn lemma_missing(terms: Seq<Seq<char>>, text: Seq<char>, at: int)
    requires
        0 <= at < terms.len(),
        !is_infix(terms[at], text),
        forall|i: int| 0 <= i < at ==> is_infix(#[trigger] terms[i], text),
    ensures
        crate::engine::first_missing(terms, text) == Some(terms[at]),
    decreases at,
{
    if at > 0 {
        let rest = terms.drop_first();
        assert(is_infix(terms[0], text));
        assert(rest[at - 1] == terms[at]);
        assert forall|i: int| 0 <= i < at - 1 implies is_infix(#[trigger] rest[i], text) by {
            assert(rest[i] == terms[i + 1]);
        }
        lemma_missing(rest, text, at - 1);
    }
}

/// Where no term is missing, the first forbidden term that occurs is named.
pub proof fn the_first_forbidden_term_is_named(
    id: Seq<char>,
    constraints: ComponentConstraintsView,
    text: Seq<char>,
    at: int,
)
    requires
        constraints.max_chars matches Some(most) ==> text.len() <= most,
        forall|i: int|
            0 <= i < constraints.preserve_terms.len() ==> is_infix(
                #[trigger] constraints.preserve_terms[i],
                text,
            ),
        0 <= at < constraints.forbidden_terms.len(),
        is_infix(constraints.forbidden_terms[at], text),
        forall|i: int| 0 <= i < at ==> !is_infix(#[trigger] constraints.forbidden_terms[i], text),
    ensures
        value_error(id, constraints, ComponentValueView::Text { text }) == Some(
            HarnessOptErrorView::ConstraintViolation {
                component_id: id,
                reason: "contains forbidden term `"@ + constraints.forbidden_terms[at] + "`"@,
            },
        ),
{
    lemma_none_missing(constraints.preserve_terms, text);
    lemma_present(constraints.forbidden_terms, text, at);
}

proof fn lemma_none_missing(terms: Seq<Seq<char>>, text: Seq<char>)
    requires
        forall|i: int| 0 <= i < terms.len() ==> is_infix(#[trigger] terms[i], text),
    ensures
        crate::engine::first_missing(terms, text) is None,
    decreases terms.len(),
{
    if terms.len() > 0 {
        let rest = terms.drop_first();
        assert(is_infix(terms[0], text));
        assert forall|i: int| 0 <= i < rest.len() implies is_infix(#[trigger] rest[i], text) by {
            assert(rest[i] == terms[i + 1]);
        }
        lemma_none_missing(rest, text);
    }
}

proof fn lemma_present(terms: Seq<Seq<char>>, text: Seq<char>, at: int)
    requires
        0 <= at < terms.len(),
        is_infix(terms[at], text),
        forall|i: int| 0 <= i < at ==> !is_infix(#[trigger] terms[i], text),
    ensures
        crate::engine::first_present(terms, text) == Some(terms[at]),
    decreases at,
{
    if at > 0 {
        let rest = terms.drop_first();
        assert(!is_infix(terms[0], text));
        assert(rest[at - 1] == terms[at]);
        assert forall|i: int| 0 <= i < at - 1 implies !is_infix(#[trigger] rest[i], text) by {
            assert(rest[i] == terms[i + 1]);
        }
        lemma_present(rest, text, at - 1);
    }
}

/// A patch is refused exactly where the candidate has no such component, or where the constraints
/// of that component refuse the value.
pub proof fn patches_are_held_to_the_constraints_of_their_component(
    candidate: CandidateView,
    id: Seq<char>,
    value: ComponentValueView,
)
    ensures
        ({
            let error = patch_error(
                candidate,
                ComponentPatchView::ReplaceValue { component_id: id, value },
            );
            &&& !candidate.mutable_components.contains_key(id) ==> error == Some(
                HarnessOptErrorView::UnknownComponent(id),
            )
            &&& candidate.mutable_components.contains_key(id) ==> error == value_error(
                id,
                candidate.mutable_components[id].constraints,
                value,
            )
        }),
{
}

/// A proposal for another parent is refused, and the names of both stand in the message. The id of
/// what a proposal makes is that of the parent, the generation and the suffix; so two proposals
/// for one parent in one generation make different candidates where their suffixes differ.
pub proof fn proposals_are_for_their_parent(
    parent: CandidateView,
    generation: nat,
    proposal: CandidateProposalView,
    suffix: Seq<char>,
    other: Seq<char>,
)
    ensures
        proposal.parent_candidate_id != parent.id ==> proposed(
            parent,
            generation,
            proposal,
            suffix,
        ) == Err::<CandidateView, HarnessOptErrorView>(
            HarnessOptErrorView::InvalidProposal(
                "proposal parent `"@ + proposal.parent_candidate_id
                    + "` does not match selected parent `"@ + parent.id + "`"@,
            ),
        ),
        derived_id(parent.id, generation, suffix) == parent.id + "-g"@ + decimal(generation)
            + "-"@ + suffix,
        suffix != other ==> derived_id(parent.id, generation, suffix) != derived_id(
            parent.id,
            generation,
            other,
        ),
        proposal.parent_candidate_id == parent.id && proposal.patches.len() == 0 ==> (proposed(
            parent,
            generation,
            proposal,
            suffix,
        ) matches Ok(made) && made.mutable_components == parent.mutable_components),
{
    let start = parent.id + "-g"@ + decimal(generation) + "-"@;
    if start + suffix == start + other {
        assert((start + suffix).skip(start.len() as int) =~= suffix);
        assert((start + other).skip(start.len() as int) =~= other);
    }
}

/// The first patch of a component that was not selected is named.
pub proof fn the_first_patch_out_of_scope_is_named(
    proposal: CandidateProposalView,
    selected: Seq<Seq<char>>,
    at: int,
)
    requires
        0 <= at < proposal.patches.len(),
        !selected.contains(proposal.patches[at]->component_id),
        forall|i: int|
            0 <= i < at ==> selected.contains((#[trigger] proposal.patches[i])->component_id),
    ensures
        scope_error(proposal, selected) == Some(
            HarnessOptErrorView::InvalidProposal(
                "proposal patched unselected component `"@ + proposal.patches[at]->component_id
                    + "`"@,
            ),
        ),
{
    lemma_out_of_scope(proposal.patches, selected, at);
}

proof fn lemma_out_of_scope(patches: Seq<ComponentPatchView>, selected: Seq<Seq<char>>, at: int)
    requires
        0 <= at < patches.len(),
        !selected.contains(patches[at]->component_id),
        forall|i: int| 0 <= i < at ==> selected.contains((#[trigger] patches[i])->component_id),
    ensures
        crate::engine::out_of_scope(patches, selected) == Some(patches[at]->component_id),
    decreases at,
{
    if at > 0 {
        let rest = patches.drop_first();
        assert(selected.contains(patches[0]->component_id));
        assert(rest[at - 1] == patches[at]);
        assert forall|i: int| 0 <= i < at - 1 implies selected.contains(
            (#[trigger] rest[i])->component_id,
        ) by {
            assert(rest[i] == patches[i + 1]);
        }
        lemma_out_of_scope(rest, selected, at - 1);
    }
}

/// The examples of a batch follow each other from the place of its number on, around the end; the
/// batches of numbers that differ by the count of the examples are the same, and a batch that is
/// not smaller than the count holds every example.
pub proof fn batches_go_around_the_examples(
    examples: Seq<HarnessExampleView>,
    size: nat,
    generation: nat,
    at: int,
)
    requires
        0 <= at < examples.len(),
    ensures
        crate::laws::run::window(
            batch(examples, size, generation),
            examples,
            generation as int,
            size as int,
        ),
        batch(examples, size, generation + examples.len()) == batch(examples, size, generation),
        size >= examples.len() ==> batch(examples, size, generation).contains(examples[at]),
{
    let n = examples.len() as int;
    let b = batch(examples, size, generation);
    let c = batch(examples, size, generation + examples.len());
    assert forall|o: int| 0 <= o < b.len() implies b[o] == c[o] by {
        vstd::arithmetic::div_mod::lemma_mod_add_multiples_vanish(generation + o, n);
        assert(generation + n + o == n + (generation + o));
    }
    assert(b =~= c);
    if size >= examples.len() {
        let k = crate::engine::lemma_turn_of(generation as int, n, at);
        assert(b[k] == examples[at]);
    }
}

/// A run that takes all components selects all of them, in order, and the cursor stays. Any other
/// selects the one at the cursor.
pub proof fn all_components_are_selected_where_asked(
    record: CandidateRecordView,
    config: OptimizationConfigView,
    ids: Seq<Seq<char>>,
    count: nat,
)
    requires
        enumerates(ids, record.candidate.mutable_components.dom()),
    ensures
        config.component_selection == ComponentSelection::All ==> selected_components(
            record,
            config,
        ) == ids && next_cursor(record, config, count) == record.component_cursor,
        config.component_selection != ComponentSelection::All && ids.len() > 0
            ==> selected_components(record, config) == seq![
            ids[record.component_cursor as int % ids.len() as int],
        ],
        config.component_selection != ComponentSelection::All && count > 0 ==> next_cursor(
            record,
            config,
            count,
        ) == record.component_cursor + count,
{
    let dom = record.candidate.mutable_components.dom();
    lemma_enumeration_unique(ids, in_order(dom), dom);
}

/// The record of a run says what the run came to, and whose it was.
pub proof fn run_records_say_what_the_run_came_to(
    candidate: CandidateView,
    fingerprint: Seq<char>,
    run: ExampleRunView,
    cache_hit: bool,
)
    ensures
        ({
            let record = run_record(candidate, fingerprint, run, cache_hit);
            &&& record.candidate_id == candidate.id
            &&& record.candidate_fingerprint == fingerprint
            &&& record.example_id == run.result.example_id
            &&& record.split == run.result.split
            &&& record.score == run.result.score
            &&& record.metrics == run.result.metrics
            &&& record.feedback == run.result.feedback
            &&& record.diagnostics == run.result.diagnostics
            &&& record.artifacts == run.artifacts
            &&& record.trace == run.trace
            &&& record.cache_hit == cache_hit
            &&& cache_hit ==> record.metric_calls == 0
            &&& !cache_hit ==> record.metric_calls >= 1
            &&& !cache_hit && run.metric_calls >= 1 ==> record.metric_calls == run.metric_calls
            &&& !cache_hit && run.metric_calls == 0 ==> record.metric_calls == 1
        }),
{
}

/// Whether an example shows that a candidate is better than another.
pub open spec fn shows_better(
    id: Seq<char>,
    a: CandidateEvaluationView,
    b: CandidateEvaluationView,
) -> bool {
    &&& a.evaluations.contains_key(id)
    &&& b.evaluations.contains_key(id)
    &&& b.evaluations[id].score.lt(a.evaluations[id].score)
}

/// Two candidates complement each other exactly when there is an example on which the first is
/// strictly better and one on which the second is. It does not matter which is the first, and no
/// candidate complements itself.
pub proof fn complements_are_better_on_different_examples(
    a: CandidateEvaluationView,
    b: CandidateEvaluationView,
)
    ensures
        complement(a, b) <==> (exists|id: Seq<char>| shows_better(id, a, b)) && (exists|
            id: Seq<char>,
        | shows_better(id, b, a)),
        complement(a, b) == complement(b, a),
        !complement(a, a),
{
    if complement(a, b) {
        let x = choose|id: Seq<char>| #[trigger]
            a.evaluations.contains_key(id) && b.evaluations.contains_key(id)
                && b.evaluations[id].score.lt(a.evaluations[id].score);
        let y = choose|id: Seq<char>| #[trigger]
            b.evaluations.contains_key(id) && a.evaluations.contains_key(id)
                && a.evaluations[id].score.lt(b.evaluations[id].score);
        assert(shows_better(x, a, b));
        assert(shows_better(y, b, a));
    }
    if (exists|id: Seq<char>| shows_better(id, a, b)) && (exists|id: Seq<char>|
        shows_better(id, b, a)) {
        let x = choose|id: Seq<char>| shows_better(id, a, b);
        let y = choose|id: Seq<char>| shows_better(id, b, a);
        assert(a.evaluations.contains_key(x));
        assert(b.evaluations.contains_key(y));
    }
}

/// A merge takes the components of the first candidate and of the second in turn, in the order of
/// the ids, starting with the first; where the second has none of that id, the first gives its
/// own. Nothing else comes from the second, and nothing is made up.
pub proof fn merges_take_components_in_turn(
    merged: CandidateView,
    left: CandidateView,
    right: CandidateView,
    generation: nat,
    ids: Seq<Seq<char>>,
    at: int,
)
    requires
        merged_from(merged, left, right, generation),
        enumerates(ids, left.mutable_components.dom()),
        0 <= at < ids.len(),
    ensures
        merged.id == left.id + "-"@ + right.id + "-m"@ + decimal(generation),
        merged.parent_id == Some(left.id),
        merged.immutable_context == left.immutable_context,
        merged.metadata == left.metadata,
        forall|id: Seq<char>| #[trigger]
            merged.mutable_components.contains_key(id) <==> left.mutable_components.contains_key(
                id,
            ),
        at % 2 == 0 ==> merged.mutable_components[ids[at]] == left.mutable_components[ids[at]],
        at % 2 == 1 && right.mutable_components.contains_key(ids[at])
            ==> merged.mutable_components[ids[at]] == right.mutable_components[ids[at]],
        at % 2 == 1 && !right.mutable_components.contains_key(ids[at])
            ==> merged.mutable_components[ids[at]] == left.mutable_components[ids[at]],
{
    let dom = left.mutable_components.dom();
    lemma_enumeration_unique(ids, in_order(dom), dom);
    assert(merged.mutable_components.dom() == dom);
    assert forall|id: Seq<char>| #[trigger]
        merged.mutable_components.contains_key(id) <==> left.mutable_components.contains_key(
            id,
        ) by {
        assert(merged.mutable_components.dom().contains(id) <==> dom.contains(id));
    }
}

/// The runs that an evaluation holds of examples are those of the examples that it was made on, in
/// their order, with what it holds of each.
pub proof fn runs_follow_their_examples(
    evaluation: CandidateEvaluationView,
    examples: Seq<HarnessExampleView>,
)
    ensures
        runs_for(evaluation, examples).map_values(|run: ExampleRunView| run.example)
            == examples.filter(
            |example: HarnessExampleView| evaluation.evaluations.contains_key(example.id),
        ),
        forall|i: int|
            0 <= i < runs_for(evaluation, examples).len() ==> {
                let run = #[trigger] runs_for(evaluation, examples)[i];
                let id = run.example.id;
                &&& run.result == evaluation.evaluations[id]
                &&& evaluation.traces.contains_key(id) ==> run.trace == Some(evaluation.traces[id])
                &&& !evaluation.traces.contains_key(id) ==> run.trace is None
                &&& evaluation.artifacts.contains_key(id) ==> run.artifacts
                    == evaluation.artifacts[id]
                &&& evaluation.metric_calls.contains_key(id) ==> run.metric_calls
                    == evaluation.metric_calls[id]
                &&& !evaluation.metric_calls.contains_key(id) ==> run.metric_calls == 0
            },
    decreases examples.len(),
{
    reveal(Seq::filter);
    let f = |run: ExampleRunView| run.example;
    let keep = |example: HarnessExampleView| evaluation.evaluations.contains_key(example.id);
    let runs = runs_for(evaluation, examples);
    if examples.len() == 0 {
        assert(runs.map_values(f) =~= examples.filter(keep));
    } else {
        let rest = examples.drop_last();
        runs_follow_their_examples(evaluation, rest);
        let before = runs_for(evaluation, rest);
        assert(runs.map_values(f) =~= examples.filter(keep));
        assert forall|i: int| 0 <= i < runs.len() implies {
            let run = #[trigger] runs[i];
            let id = run.example.id;
            &&& run.result == evaluation.evaluations[id]
            &&& evaluation.traces.contains_key(id) ==> run.trace == Some(evaluation.traces[id])
            &&& !evaluation.traces.contains_key(id) ==> run.trace is None
            &&& evaluation.artifacts.contains_key(id) ==> run.artifacts
                == evaluation.artifacts[id]
            &&& evaluation.metric_calls.contains_key(id) ==> run.metric_calls
                == evaluation.metric_calls[id]
            &&& !evaluation.metric_calls.contains_key(id) ==> run.metric_calls == 0
        } by {
            if i < before.len() {
                assert(runs[i] == before[i]);
            }
        }
    }
}

/// The message of an error names what is wrong.
pub proof fn messages_name_what_is_wrong(id: Seq<char>, text: Seq<char>)
    ensures
        is_infix(id, message_text(HarnessOptErrorView::UnknownComponent(id))),
        is_infix(
            id,
            message_text(
                HarnessOptErrorView::ConstraintViolation { component_id: id, reason: text },
            ),
        ),
        is_infix(
            text,
            message_text(
                HarnessOptErrorView::ConstraintViolation { component_id: id, reason: text },
            ),
        ),
        message_text(HarnessOptErrorView::InvalidProposal(text)) == "invalid proposal: "@ + text,
        message_text(HarnessOptErrorView::Harness(text)) == "harness error: "@ + text,
        message_text(HarnessOptErrorView::Strategy(text)) == "strategy error: "@ + text,
        message_text(HarnessOptErrorView::Io(text)) == "io error: "@ + text,
        message_text(HarnessOptErrorView::Json(text)) == "json error: "@ + text,
        message_text(HarnessOptErrorView::Sqlite(text)) == "sqlite error: "@ + text,
        message_text(HarnessOptErrorView::Store(text)) == "store error: "@ + text,
{
    let unknown = "unknown mutable component `"@;
    lemma_named(unknown, id, "`"@);
    let start = "component `"@;
    let middle = "` violates constraint: "@;
    lemma_named(start, id, middle + text);
    assert(start + id + (middle + text) =~= start + id + middle + text);
    lemma_named(start + id + middle, text, Seq::empty());
    assert(start + id + middle + text + Seq::empty() =~= start + id + middle + text);
}

proof fn lemma_named(before: Seq<char>, part: Seq<char>, after: Seq<char>)
    ensures
        is_infix(part, before + part + after),
{
    crate::laws::text::containing_is_having_around(part, before + part + after);
    let whole = before + part + after;
    assert(whole == before + part + after);
}

/// Where nothing else is said, a run has the settings of the documentation.
pub proof fn settings_have_their_defaults()
    ensures
        ({
            let config = default_config();
            &&& config.max_metric_calls == 64
            &&& config.max_iterations is None
            &&& config.minibatch_size == 8
            &&& config.max_concurrency == 4
            &&& config.perfect_score.bits == 0x3ff0_0000_0000_0000u64
            &&& config.skip_perfect_score
            &&& config.candidate_selection == CandidateSelection::Pareto
            &&& config.component_selection == ComponentSelection::RoundRobin
            &&& config.frontier == FrontierMode::Instance
            &&& !config.use_merge
            &&& config.per_example_timeout_secs == Some(300u64)
        }),
{
}

} // verus!
