//! Rules of the optimizer: selection of parents, components and batches, and the application of
//! proposals and patches to candidates.

use std::sync::Arc;

use vstd::prelude::*;
use vstd::string::*;

use crate::model::{
    constrained_text, Candidate, CandidateEvaluation, CandidateEvaluationView, CandidateProposal,
    CandidateProposalView, CandidateRecord, CandidateRecordView, CandidateSelection,
    CandidateView, ComponentConstraints, ComponentConstraintsView, ComponentPatch,
    ComponentPatchView, ComponentSelection, ComponentValue, ComponentValueView, EvaluationRecord,
    EvaluationRecordView, ExampleRun, ExampleRunView, HarnessExample, HarnessExampleView,
    HarnessOptError, HarnessOptErrorView, MutableComponent, MutableComponentView,
    OptimizationConfig, OptimizationConfigView,
};
use crate::pareto::{pareto_parent, select_pareto_parent};
use crate::string_map::{enumerates, in_order, listed_in};
use crate::text::{
    contains, decimal, decimal_text, is_infix, lemma_text_lt_irreflexive, text_lt,
};
use crate::views::{duplicate_opt, lemma_take_next, lemma_views_push, opt_view, views, Duplicate};

verus! {

/// A runner that evaluates candidates on the examples of a project.
pub struct ProjectHarnessRunner<P> {
    pub project: Arc<P>,
}

impl<P> ProjectHarnessRunner<P> {
    /// The runner of a project.
    pub fn new(project: Arc<P>) -> (r: Self)
        ensures
            r.project == project,
    {
        ProjectHarnessRunner { project }
    }
}

/// A runner of candidates, and the strategy that proposes new ones.
pub struct HarnessOptimizer<R, S> {
    pub runner: R,
    pub strategy: S,
}

impl<R, S> HarnessOptimizer<R, S> {
    /// The optimizer that uses the given runner and strategy.
    pub fn new(runner: R, strategy: S) -> (r: Self)
        ensures
            r.runner == runner,
            r.strategy == strategy,
    {
        HarnessOptimizer { runner, strategy }
    }
}

/// The view of an outcome.
pub open spec fn outcome<T: View>(r: Result<T, HarnessOptError>) -> Result<
    T::V,
    HarnessOptErrorView,
> {
    match r {
        Ok(value) => Ok(value@),
        Err(error) => Err(error@),
    }
}

/// The first of the terms that `text` does not contain.
pub open spec fn first_missing(terms: Seq<Seq<char>>, text: Seq<char>) -> Option<Seq<char>>
    decreases terms.len(),
{
    if terms.len() == 0 {
        None
    } else if !is_infix(terms[0], text) {
        Some(terms[0])
    } else {
        first_missing(terms.drop_first(), text)
    }
}

/// The first of the terms that `text` contains.
pub open spec fn first_present(terms: Seq<Seq<char>>, text: Seq<char>) -> Option<Seq<char>>
    decreases terms.len(),
{
    if terms.len() == 0 {
        None
    } else if is_infix(terms[0], text) {
        Some(terms[0])
    } else {
        first_present(terms.drop_first(), text)
    }
}

/// Which constraint `text` violates: first its length, then the terms to be preserved, then the
/// forbidden terms, each in their order.
pub open spec fn violation(constraints: ComponentConstraintsView, text: Seq<char>) -> Option<
    Seq<char>,
> {
    if constraints.max_chars is Some && text.len() > constraints.max_chars->0 {
        Some("text exceeds "@ + decimal(constraints.max_chars->0 as nat) + " characters"@)
    } else {
        match first_missing(constraints.preserve_terms, text) {
            Some(term) => Some("missing preserved term `"@ + term + "`"@),
            None => match first_present(constraints.forbidden_terms, text) {
                Some(term) => Some("contains forbidden term `"@ + term + "`"@),
                None => None,
            },
        }
    }
}

/// The error that `value` is refused with, where it is.
pub open spec fn value_error(
    component_id: Seq<char>,
    constraints: ComponentConstraintsView,
    value: ComponentValueView,
) -> Option<HarnessOptErrorView> {
    match constrained_text(value) {
        Some(text) => match violation(constraints, text) {
            Some(reason) => Some(HarnessOptErrorView::ConstraintViolation { component_id, reason }),
            None => None,
        },
        None => None,
    }
}

/// `start`, `middle` and `end` one after the other.
pub fn concat3(start: &str, middle: &str, end: &str) -> (r: String)
    ensures
        r@ == start@ + middle@ + end@,
{
    let mut r: String = start.to_string();
    r.append(middle);
    r.append(end);
    r
}

/// The first of the terms that `text` does not contain.
pub fn missing_term(terms: &Vec<String>, text: &str) -> (r: Option<String>)
    ensures
        opt_view(r) == first_missing(views(terms@), text@),
{
    let ghost all = views(terms@);
    let mut i: usize = 0;
    assert(all.skip(0) =~= all);
    while i < terms.len()
        invariant
            i <= terms@.len(),
            all == views(terms@),
            first_missing(all, text@) == first_missing(all.skip(i as int), text@),
        decreases terms@.len() - i,
    {
        assert(all.skip(i as int)[0] == all[i as int]);
        assert(all.skip(i as int).drop_first() =~= all.skip(i + 1));
        if !contains(text, terms[i].as_str()) {
            return Some(terms[i].clone());
        }
        i = i + 1;
    }
    None
}

fn find_present(terms: &Vec<String>, text: &str) -> (r: Option<String>)
    ensures
        opt_view(r) == first_present(views(terms@), text@),
{
    let ghost all = views(terms@);
    let mut i: usize = 0;
    assert(all.skip(0) =~= all);
    while i < terms.len()
        invariant
            i <= terms@.len(),
            all == views(terms@),
            first_present(all, text@) == first_present(all.skip(i as int), text@),
        decreases terms@.len() - i,
    {
        assert(all.skip(i as int)[0] == all[i as int]);
        assert(all.skip(i as int).drop_first() =~= all.skip(i + 1));
        if contains(text, terms[i].as_str()) {
            return Some(terms[i].clone());
        }
        i = i + 1;
    }
    None
}

/// Checks the text of `value` against the constraints of a component.
pub fn validate_component_value(
    component_id: &str,
    constraints: &ComponentConstraints,
    value: &ComponentValue,
) -> (r: Result<(), HarnessOptError>)
    ensures
        match r {
            Ok(()) => value_error(component_id@, constraints@, value@) is None,
            Err(error) => value_error(component_id@, constraints@, value@) == Some(error@),
        },
{
    let text: &str = match value.text_for_constraints() {
        Some(text) => text,
        None => {
            return Ok(());
        },
    };
    if let Some(max_chars) = constraints.max_chars {
        if text.unicode_len() > max_chars {
            return Err(
                HarnessOptError::ConstraintViolation {
                    component_id: component_id.to_string(),
                    reason: concat3(
                        "text exceeds ",
                        decimal_text(max_chars as u64).as_str(),
                        " characters",
                    ),
                },
            );
        }
    }
    if let Some(term) = missing_term(&constraints.preserve_terms, text) {
        return Err(
            HarnessOptError::ConstraintViolation {
                component_id: component_id.to_string(),
                reason: concat3("missing preserved term `", term.as_str(), "`"),
            },
        );
    }
    if let Some(term) = find_present(&constraints.forbidden_terms, text) {
        return Err(
            HarnessOptError::ConstraintViolation {
                component_id: component_id.to_string(),
                reason: concat3("contains forbidden term `", term.as_str(), "`"),
            },
        );
    }
    Ok(())
}

/// A value that is accepted keeps to every constraint that speaks of its text, and a value that
/// breaks one is refused.
pub proof fn accepted_values_keep_constraints(
    component_id: Seq<char>,
    constraints: ComponentConstraintsView,
    value: ComponentValueView,
)
    ensures
        value_error(component_id, constraints, value) is None <==> match constrained_text(value) {
            Some(text) => {
                &&& constraints.max_chars is Some ==> text.len() <= constraints.max_chars->0
                &&& forall|i: int|
                    0 <= i < constraints.preserve_terms.len() ==> is_infix(
                        #[trigger] constraints.preserve_terms[i],
                        text,
                    )
                &&& forall|i: int|
                    0 <= i < constraints.forbidden_terms.len() ==> !is_infix(
                        #[trigger] constraints.forbidden_terms[i],
                        text,
                    )
            },
            None => true,
        },
{
    if let Some(text) = constrained_text(value) {
        lemma_first_missing(constraints.preserve_terms, text);
        lemma_first_present(constraints.forbidden_terms, text);
    }
}

pub proof fn lemma_first_missing(terms: Seq<Seq<char>>, text: Seq<char>)
    ensures
        first_missing(terms, text) is None <==> forall|i: int|
            0 <= i < terms.len() ==> is_infix(#[trigger] terms[i], text),
    decreases terms.len(),
{
    if terms.len() > 0 {
        let rest = terms.drop_first();
        lemma_first_missing(rest, text);
        if first_missing(terms, text) is None {
            assert forall|i: int| 0 <= i < terms.len() implies is_infix(
                #[trigger] terms[i],
                text,
            ) by {
                if i > 0 {
                    assert(terms[i] == rest[i - 1]);
                }
            }
        } else if is_infix(terms[0], text) {
            let i = choose|i: int| 0 <= i < rest.len() && !is_infix(#[trigger] rest[i], text);
            assert(terms[i + 1] == rest[i]);
        }
    }
}

proof fn lemma_first_present(terms: Seq<Seq<char>>, text: Seq<char>)
    ensures
        first_present(terms, text) is None <==> forall|i: int|
            0 <= i < terms.len() ==> !is_infix(#[trigger] terms[i], text),
    decreases terms.len(),
{
    if terms.len() > 0 {
        let rest = terms.drop_first();
        lemma_first_present(rest, text);
        if first_present(terms, text) is None {
            assert forall|i: int| 0 <= i < terms.len() implies !is_infix(
                #[trigger] terms[i],
                text,
            ) by {
                if i > 0 {
                    assert(terms[i] == rest[i - 1]);
                }
            }
        } else if !is_infix(terms[0], text) {
            let i = choose|i: int| 0 <= i < rest.len() && is_infix(#[trigger] rest[i], text);
            assert(terms[i + 1] == rest[i]);
        }
    }
}

/// The error that a patch of `candidate` is refused with, where it is.
pub open spec fn patch_error(candidate: CandidateView, patch: ComponentPatchView) -> Option<
    HarnessOptErrorView,
> {
    match patch {
        ComponentPatchView::ReplaceValue { component_id, value } => {
            if !candidate.mutable_components.contains_key(component_id) {
                Some(HarnessOptErrorView::UnknownComponent(component_id))
            } else {
                value_error(
                    component_id,
                    candidate.mutable_components[component_id].constraints,
                    value,
                )
            }
        },
    }
}

/// The candidate with the value that the patch gives.
pub open spec fn patched(candidate: CandidateView, patch: ComponentPatchView) -> CandidateView {
    match patch {
        ComponentPatchView::ReplaceValue { component_id, value } => CandidateView {
            mutable_components: candidate.mutable_components.insert(
                component_id,
                MutableComponentView { value, ..candidate.mutable_components[component_id] },
            ),
            ..candidate
        },
    }
}

/// Applies a patch. A patch that is refused leaves the candidate as it was.
pub fn apply_patch(candidate: &mut Candidate, patch: &ComponentPatch) -> (r: Result<
    (),
    HarnessOptError,
>)
    ensures
        match r {
            Ok(()) => {
                &&& patch_error(old(candidate)@, patch@) is None
                &&& final(candidate)@ == patched(old(candidate)@, patch@)
            },
            Err(error) => {
                &&& patch_error(old(candidate)@, patch@) == Some(error@)
                &&& final(candidate)@ == old(candidate)@
            },
        },
{
    match patch {
        ComponentPatch::ReplaceValue { component_id, value } => {
            let component: MutableComponent = match candidate.mutable_components.get(
                component_id.as_str(),
            ) {
                Some(component) => component.duplicate(),
                None => {
                    return Err(HarnessOptError::UnknownComponent(component_id.clone()));
                },
            };
            match validate_component_value(component_id.as_str(), &component.constraints, value) {
                Ok(()) => {},
                Err(error) => {
                    return Err(error);
                },
            }
            let component = MutableComponent { value: value.duplicate(), ..component };
            candidate.mutable_components.insert(component_id.clone(), component);
        },
    }
    Ok(())
}

/// A patch changes nothing but the value of its component: the ids and the other components stay,
/// and so do the constraints of all of them.
pub proof fn patches_change_one_value(candidate: CandidateView, patch: ComponentPatchView)
    requires
        patch_error(candidate, patch) is None,
    ensures
        ({
            let after = patched(candidate, patch);
            let id = patch->component_id;
            &&& after.id == candidate.id
            &&& after.parent_id == candidate.parent_id
            &&& after.immutable_context == candidate.immutable_context
            &&& after.metadata == candidate.metadata
            &&& after.mutable_components.dom() == candidate.mutable_components.dom()
            &&& after.mutable_components[id].value == patch->value
            &&& forall|k: Seq<char>| #[trigger]
                candidate.mutable_components.contains_key(k) ==> {
                    &&& after.mutable_components[k].constraints
                        == candidate.mutable_components[k].constraints
                    &&& after.mutable_components[k].id == candidate.mutable_components[k].id
                    &&& after.mutable_components[k].description
                        == candidate.mutable_components[k].description
                    &&& k != id ==> after.mutable_components[k]
                        == candidate.mutable_components[k]
                }
        }),
{
    assert(patched(candidate, patch).mutable_components.dom()
        =~= candidate.mutable_components.dom());
}

/// The candidate after all patches, or the error of the first that is refused.
pub open spec fn all_patched(candidate: CandidateView, patches: Seq<ComponentPatchView>) -> Result<
    CandidateView,
    HarnessOptErrorView,
>
    decreases patches.len(),
{
    if patches.len() == 0 {
        Ok(candidate)
    } else {
        match patch_error(candidate, patches[0]) {
            Some(error) => Err(error),
            None => all_patched(patched(candidate, patches[0]), patches.drop_first()),
        }
    }
}

/// Patches keep the set of components and their constraints, and what they do not name they leave
/// as it was.
pub proof fn patches_stay_in_scope(
    candidate: CandidateView,
    patches: Seq<ComponentPatchView>,
    selected: Set<Seq<char>>,
)
    requires
        all_patched(candidate, patches) is Ok,
        forall|i: int|
            0 <= i < patches.len() ==> selected.contains((#[trigger] patches[i])->component_id),
    ensures
        ({
            let after = all_patched(candidate, patches)->Ok_0;
            &&& after.id == candidate.id
            &&& after.parent_id == candidate.parent_id
            &&& after.immutable_context == candidate.immutable_context
            &&& after.metadata == candidate.metadata
            &&& after.mutable_components.dom() == candidate.mutable_components.dom()
            &&& forall|k: Seq<char>| #[trigger]
                candidate.mutable_components.contains_key(k) ==> {
                    &&& after.mutable_components[k].constraints
                        == candidate.mutable_components[k].constraints
                    &&& !selected.contains(k) ==> after.mutable_components[k]
                        == candidate.mutable_components[k]
                }
        }),
    decreases patches.len(),
{
    if patches.len() > 0 {
        patches_change_one_value(candidate, patches[0]);
        let rest = patches.drop_first();
        assert forall|i: int| 0 <= i < rest.len() implies selected.contains(
            (#[trigger] rest[i])->component_id,
        ) by {
            assert(rest[i] == patches[i + 1]);
        }
        let next = patched(candidate, patches[0]);
        patches_stay_in_scope(next, rest, selected);
        assert(forall|k: Seq<char>|
            candidate.mutable_components.contains_key(k) ==> #[trigger]
                next.mutable_components.contains_key(k));
    }
}

/// Applies the patches in order, and stops at the first that is refused.
pub fn apply_patches(candidate: Candidate, patches: &Vec<ComponentPatch>) -> (r: Result<
    Candidate,
    HarnessOptError,
>)
    ensures
        outcome(r) == all_patched(candidate@, views(patches@)),
{
    let ghost all = views(patches@);
    let ghost start = candidate@;
    let mut current: Candidate = candidate;
    let mut i: usize = 0;
    assert(all.skip(0) =~= all);
    while i < patches.len()
        invariant
            i <= patches@.len(),
            all == views(patches@),
            start == candidate@,
            all_patched(start, all) == all_patched(current@, all.skip(i as int)),
        decreases patches@.len() - i,
    {
        assert(all.skip(i as int)[0] == all[i as int]);
        assert(all.skip(i as int).drop_first() =~= all.skip(i + 1));
        match apply_patch(&mut current, &patches[i]) {
            Ok(()) => {},
            Err(error) => {
                return Err(error);
            },
        }
        i = i + 1;
    }
    Ok(current)
}

/// The id of a candidate that was derived from `parent`.
pub open spec fn derived_id(parent: Seq<char>, generation: nat, suffix: Seq<char>) -> Seq<char> {
    parent + "-g"@ + decimal(generation) + "-"@ + suffix
}

/// The candidate that `proposal` makes of `parent`, before its patches.
pub open spec fn derived(
    parent: CandidateView,
    generation: nat,
    proposal: CandidateProposalView,
    suffix: Seq<char>,
) -> CandidateView {
    CandidateView {
        id: derived_id(parent.id, generation, suffix),
        parent_id: Some(parent.id),
        metadata: parent.metadata.union_prefer_right(proposal.metadata),
        ..parent
    }
}

/// The candidate that `proposal` makes of `parent`, or the error that it is refused with.
pub open spec fn proposed(
    parent: CandidateView,
    generation: nat,
    proposal: CandidateProposalView,
    suffix: Seq<char>,
) -> Result<CandidateView, HarnessOptErrorView> {
    if proposal.parent_candidate_id != parent.id {
        Err(
            HarnessOptErrorView::InvalidProposal(
                "proposal parent `"@ + proposal.parent_candidate_id
                    + "` does not match selected parent `"@ + parent.id + "`"@,
            ),
        )
    } else {
        all_patched(derived(parent, generation, proposal, suffix), proposal.patches)
    }
}

/// A lower-case hexadecimal digit.
pub open spec fn hex_char(c: char) -> bool {
    '0' <= c <= '9' || 'a' <= c <= 'f'
}

/// The text of a random UUID: five groups of lower-case hexadecimal digits with hyphens between
/// them, with version 4 and the variant of the standard.
pub open spec fn uuid_text(s: Seq<char>) -> bool {
    &&& s.len() == 36
    &&& forall|i: int|
        0 <= i < 36 ==> if i == 8 || i == 13 || i == 18 || i == 23 {
            #[trigger] s[i] == '-'
        } else {
            hex_char(s[i])
        }
    &&& s[14] == '4'
    &&& s[19] == '8' || s[19] == '9' || s[19] == 'a' || s[19] == 'b'
}

/// `uuid::Uuid::new_v4` as text: a fresh random UUID in its hyphenated form. Which one it is rests
/// on chance.
#[verifier::external_body]
pub(crate) fn fresh_uuid() -> (r: String)
    ensures
        uuid_text(r@),
{
    uuid::Uuid::new_v4().to_string()
}

/// Makes a candidate of `parent` as `proposal` says. The id of the candidate ends in `suffix`.
pub fn apply_proposal_with_suffix(
    parent: &Candidate,
    generation: usize,
    proposal: &CandidateProposal,
    suffix: &str,
) -> (r: Result<Candidate, HarnessOptError>)
    ensures
        outcome(r) == proposed(parent@, generation as nat, proposal@, suffix@),
{
    if proposal.parent_candidate_id != parent.id {
        let mut text: String = "proposal parent `".to_string();
        text.append(proposal.parent_candidate_id.as_str());
        text.append("` does not match selected parent `");
        text.append(parent.id.as_str());
        text.append("`");
        return Err(HarnessOptError::InvalidProposal(text));
    }
    let mut id: String = parent.id.clone();
    id.append("-g");
    id.append(decimal_text(generation as u64).as_str());
    id.append("-");
    id.append(suffix);
    let mut metadata = parent.metadata.duplicate();
    metadata.extend(proposal.metadata.duplicate());
    let candidate = Candidate {
        id,
        parent_id: Some(parent.id.clone()),
        mutable_components: parent.mutable_components.duplicate(),
        immutable_context: parent.immutable_context.duplicate(),
        metadata,
    };
    apply_patches(candidate, &proposal.patches)
}

/// Makes a candidate of `parent` as `proposal` says, with a fresh id.
pub fn apply_proposal(
    parent: &Candidate,
    generation: usize,
    proposal: &CandidateProposal,
) -> (r: Result<Candidate, HarnessOptError>)
    ensures
        exists|suffix: Seq<char>| #[trigger]
            uuid_text(suffix) && outcome(r) == proposed(
                parent@,
                generation as nat,
                proposal@,
                suffix,
            ),
{
    let suffix: String = fresh_uuid();
    let r = apply_proposal_with_suffix(parent, generation, proposal, suffix.as_str());
    assert(uuid_text(suffix@));
    r
}

/// A candidate that a proposal makes names its parent, and its id starts with the id of the parent
/// and the generation. Its context is that of the parent, and its metadata hold those of the
/// proposal.
pub proof fn proposals_set_lineage(
    parent: CandidateView,
    generation: nat,
    proposal: CandidateProposalView,
    suffix: Seq<char>,
)
    requires
        proposed(parent, generation, proposal, suffix) is Ok,
    ensures
        ({
            let candidate = proposed(parent, generation, proposal, suffix)->Ok_0;
            &&& proposal.parent_candidate_id == parent.id
            &&& candidate.parent_id == Some(parent.id)
            &&& candidate.id == derived_id(parent.id, generation, suffix)
            &&& candidate.immutable_context == parent.immutable_context
            &&& candidate.metadata == parent.metadata.union_prefer_right(proposal.metadata)
            &&& candidate.mutable_components.dom() == parent.mutable_components.dom()
        }),
{
    let start = derived(parent, generation, proposal, suffix);
    let named = Set::new(|k: Seq<char>| true);
    patches_stay_in_scope(start, proposal.patches, named);
}

/// The first patch of a component that is not selected.
pub open spec fn out_of_scope(
    patches: Seq<ComponentPatchView>,
    selected: Seq<Seq<char>>,
) -> Option<Seq<char>>
    decreases patches.len(),
{
    if patches.len() == 0 {
        None
    } else if !selected.contains(patches[0]->component_id) {
        Some(patches[0]->component_id)
    } else {
        out_of_scope(patches.drop_first(), selected)
    }
}

/// The error that a proposal is refused with because of the components that it patches.
pub open spec fn scope_error(
    proposal: CandidateProposalView,
    selected: Seq<Seq<char>>,
) -> Option<HarnessOptErrorView> {
    match out_of_scope(proposal.patches, selected) {
        Some(id) => Some(
            HarnessOptErrorView::InvalidProposal(
                "proposal patched unselected component `"@ + id + "`"@,
            ),
        ),
        None => None,
    }
}

/// Where no patch is out of scope, every patch names a selected component.
pub proof fn lemma_in_scope(patches: Seq<ComponentPatchView>, selected: Seq<Seq<char>>)
    ensures
        out_of_scope(patches, selected) is None <==> forall|i: int|
            0 <= i < patches.len() ==> selected.contains((#[trigger] patches[i])->component_id),
    decreases patches.len(),
{
    if patches.len() > 0 {
        let rest = patches.drop_first();
        lemma_in_scope(rest, selected);
        if out_of_scope(patches, selected) is None {
            assert forall|i: int| 0 <= i < patches.len() implies selected.contains(
                (#[trigger] patches[i])->component_id,
            ) by {
                if i > 0 {
                    assert(patches[i] == rest[i - 1]);
                }
            }
        } else if selected.contains(patches[0]->component_id) {
            let i = choose|i: int|
                0 <= i < rest.len() && !selected.contains((#[trigger] rest[i])->component_id);
            assert(patches[i + 1] == rest[i]);
        }
    }
}

/// A proposal that is in scope changes no component but the selected ones.
pub proof fn scoped_proposals_change_selected_components(
    parent: CandidateView,
    generation: nat,
    proposal: CandidateProposalView,
    suffix: Seq<char>,
    selected: Seq<Seq<char>>,
)
    requires
        scope_error(proposal, selected) is None,
        proposed(parent, generation, proposal, suffix) is Ok,
    ensures
        ({
            let candidate = proposed(parent, generation, proposal, suffix)->Ok_0;
            forall|k: Seq<char>| #[trigger]
                parent.mutable_components.contains_key(k) && !selected.contains(k) ==> {
                    &&& candidate.mutable_components.contains_key(k)
                    &&& candidate.mutable_components[k] == parent.mutable_components[k]
                }
        }),
{
    lemma_in_scope(proposal.patches, selected);
    let start = derived(parent, generation, proposal, suffix);
    patches_stay_in_scope(start, proposal.patches, selected.to_set());
}

/// Refuses a proposal that patches a component that is not selected.
pub fn validate_patch_scope(proposal: &CandidateProposal, selected_components: &[String]) -> (r:
    Result<(), HarnessOptError>)
    ensures
        match r {
            Ok(()) => scope_error(proposal@, views(selected_components@)) is None,
            Err(error) => scope_error(proposal@, views(selected_components@)) == Some(error@),
        },
{
    let ghost all = views(proposal.patches@);
    let ghost selected = views(selected_components@);
    let mut i: usize = 0;
    assert(all.skip(0) =~= all);
    while i < proposal.patches.len()
        invariant
            i <= proposal.patches@.len(),
            all == views(proposal.patches@),
            selected == views(selected_components@),
            out_of_scope(all, selected) == out_of_scope(all.skip(i as int), selected),
        decreases proposal.patches@.len() - i,
    {
        assert(all.skip(i as int)[0] == all[i as int]);
        assert(all.skip(i as int).drop_first() =~= all.skip(i + 1));
        let component_id: &String = match &proposal.patches[i] {
            ComponentPatch::ReplaceValue { component_id, .. } => component_id,
        };
        if !listed_in(selected_components, component_id) {
            return Err(
                HarnessOptError::InvalidProposal(
                    concat3("proposal patched unselected component `", component_id.as_str(), "`"),
                ),
            );
        }
        i = i + 1;
    }
    Ok(())
}

/// How many of `n` examples a batch of the given size takes.
pub open spec fn batch_limit(n: nat, minibatch_size: nat) -> nat {
    let size: nat = if minibatch_size > 1 {
        minibatch_size
    } else {
        1
    };
    if size < n {
        size
    } else {
        n
    }
}

/// The examples of a batch: they follow each other from the place of the generation on, around
/// the end of the examples.
pub open spec fn batch(
    examples: Seq<HarnessExampleView>,
    minibatch_size: nat,
    generation: nat,
) -> Seq<HarnessExampleView> {
    Seq::new(
        batch_limit(examples.len(), minibatch_size),
        |offset: int| examples[(generation + offset) % examples.len() as int],
    )
}

/// Selects the examples of a batch.
pub fn select_batch(examples: &[HarnessExample], minibatch_size: usize, generation: usize) -> (r:
    Vec<HarnessExample>)
    requires
        generation + batch_limit(examples@.len(), minibatch_size as nat) <= usize::MAX + 1,
    ensures
        views(r@) == batch(views(examples@), minibatch_size as nat, generation as nat),
{
    let mut r: Vec<HarnessExample> = Vec::new();
    let ghost all = views(examples@);
    let ghost whole = batch(all, minibatch_size as nat, generation as nat);
    let n: usize = examples.len();
    if n == 0 {
        assert(views(r@) =~= whole);
        return r;
    }
    let size: usize = if minibatch_size > 1 {
        minibatch_size
    } else {
        1
    };
    let limit: usize = if size < n {
        size
    } else {
        n
    };
    let mut offset: usize = 0;
    assert(views(r@) =~= whole.take(0));
    while offset < limit
        invariant
            offset <= limit,
            limit == whole.len(),
            n == examples@.len(),
            n > 0,
            all == views(examples@),
            whole == batch(all, minibatch_size as nat, generation as nat),
            generation + limit <= usize::MAX + 1,
            views(r@) == whole.take(offset as int),
        decreases limit - offset,
    {
        let i: usize = (generation + offset) % n;
        let example: HarnessExample = examples[i].duplicate();
        proof {
            lemma_views_push(r@, example);
            lemma_take_next(whole, offset as int);
        }
        r.push(example);
        offset = offset + 1;
    }
    assert(whole.take(limit as int) =~= whole);
    r
}

/// A batch holds only examples that were given, no place twice, and as many as its size says or
/// as there are.
pub proof fn batches_hold_only_given_examples(
    examples: Seq<HarnessExampleView>,
    minibatch_size: nat,
    generation: nat,
)
    ensures
        ({
            let b = batch(examples, minibatch_size, generation);
            &&& b.len() == batch_limit(examples.len(), minibatch_size)
            &&& b.len() <= examples.len()
            &&& examples.len() > 0 ==> b.len() > 0
            &&& forall|i: int| 0 <= i < b.len() ==> examples.contains(#[trigger] b[i])
        }),
        forall|i: int, j: int|
            0 <= i < j < batch_limit(examples.len(), minibatch_size) ==> #[trigger] ((generation
                + i) % examples.len() as int) != #[trigger] ((generation + j)
                % examples.len() as int),
{
    let b = batch(examples, minibatch_size, generation);
    let n = examples.len() as int;
    assert forall|i: int| 0 <= i < b.len() implies examples.contains(#[trigger] b[i]) by {
        assert(0 <= (generation + i) % n < n);
        assert(b[i] == examples[(generation + i) % n]);
    }
    assert forall|i: int, j: int| 0 <= i < j < b.len() implies #[trigger] ((generation + i) % n)
        != #[trigger] ((generation + j) % n) by {
        lemma_turns_differ(generation as int, n, i, j);
    }
}

proof fn lemma_turns_differ(start: int, n: int, i: int, j: int)
    requires
        0 <= i < j < n,
    ensures
        (start + i) % n != (start + j) % n,
{
    let a = start + i;
    let c = start + j;
    if a % n == c % n {
        vstd::arithmetic::div_mod::lemma_fundamental_div_mod(a, n);
        vstd::arithmetic::div_mod::lemma_fundamental_div_mod(c, n);
        assert(c - a == n * (c / n) - n * (a / n));
        assert(n * (c / n) - n * (a / n) == n * (c / n - a / n)) by (nonlinear_arith);
        assert(n * (c / n - a / n) >= n || n * (c / n - a / n) <= 0) by (nonlinear_arith)
            requires
                n > 0,
        ;
    }
}

/// The components that a proposal may patch: all of them, or the one at the cursor.
pub open spec fn selected_components(
    record: CandidateRecordView,
    config: OptimizationConfigView,
) -> Seq<Seq<char>> {
    let ids = in_order(record.candidate.mutable_components.dom());
    if config.component_selection == ComponentSelection::All || ids.len() == 0 {
        ids
    } else {
        seq![ids[record.component_cursor as int % ids.len() as int]]
    }
}

/// Selects the components that a proposal may patch.
pub fn select_components(record: &CandidateRecord, config: &OptimizationConfig) -> (r: Vec<String>)
    ensures
        views(r@) == selected_components(record@, config@),
{
    let ids: Vec<String> = record.candidate.mutable_components.keys();
    assert(views(ids@).len() == ids@.len());
    if config.component_selection == ComponentSelection::All || ids.len() == 0 {
        return ids;
    }
    let mut r: Vec<String> = Vec::new();
    let i: usize = record.component_cursor % ids.len();
    r.push(ids[i].clone());
    assert(views(r@) =~= seq![views(ids@)[i as int]]);
    r
}

/// Every selected component is one of the candidate's.
pub proof fn selected_components_exist(
    record: CandidateRecordView,
    config: OptimizationConfigView,
    id: Seq<char>,
)
    requires
        enumerates(
            in_order(record.candidate.mutable_components.dom()),
            record.candidate.mutable_components.dom(),
        ),
        selected_components(record, config).contains(id),
    ensures
        record.candidate.mutable_components.contains_key(id),
{
    let ids = in_order(record.candidate.mutable_components.dom());
    if config.component_selection == ComponentSelection::All || ids.len() == 0 {
        assert(ids.contains(id));
    } else {
        let i = record.component_cursor as int % ids.len() as int;
        assert(0 <= i < ids.len());
        assert(ids.contains(ids[i]));
    }
}

/// The cursor of a candidate that was derived from the one recorded.
pub open spec fn next_cursor(
    record: CandidateRecordView,
    config: OptimizationConfigView,
    selected_count: nat,
) -> int {
    if config.component_selection == ComponentSelection::All {
        record.component_cursor as int
    } else {
        record.component_cursor + (if selected_count > 1 {
            selected_count as int
        } else {
            1
        })
    }
}

/// Moves the cursor past the components that were selected.
pub fn next_component_cursor(
    record: &CandidateRecord,
    config: &OptimizationConfig,
    selected_count: usize,
) -> (r: usize)
    requires
        next_cursor(record@, config@, selected_count as nat) <= usize::MAX,
    ensures
        r == next_cursor(record@, config@, selected_count as nat),
{
    if config.component_selection == ComponentSelection::All {
        record.component_cursor
    } else {
        record.component_cursor + (if selected_count > 1 {
            selected_count
        } else {
            1
        })
    }
}

/// The components that are selected at a cursor.
pub open spec fn selected_at(
    record: CandidateRecordView,
    config: OptimizationConfigView,
    cursor: int,
) -> Seq<Seq<char>> {
    selected_components(
        CandidateRecordView { component_cursor: cursor as usize, ..record },
        config,
    )
}

/// Selecting one component after the other reaches every component, from whatever cursor on: in
/// as many turns as there are components each is selected once. One turn moves the cursor by one,
/// and the component that it selects is followed by the next in the order of the ids, the last by
/// the first.
pub proof fn round_robin_reaches_every_component(
    record: CandidateRecordView,
    config: OptimizationConfigView,
    start: usize,
)
    requires
        config.component_selection == ComponentSelection::RoundRobin,
        enumerates(
            in_order(record.candidate.mutable_components.dom()),
            record.candidate.mutable_components.dom(),
        ),
        in_order(record.candidate.mutable_components.dom()).len() > 0,
        start + in_order(record.candidate.mutable_components.dom()).len() - 1 <= usize::MAX,
    ensures
        ({
            let ids = in_order(record.candidate.mutable_components.dom());
            let n = ids.len() as int;
            &&& forall|k: int|
                0 <= k < n ==> #[trigger] selected_at(record, config, start + k) == seq![
                    ids[(start + k) % n],
                ]
            &&& forall|k: int|
                0 <= k < n ==> #[trigger] next_cursor(
                    CandidateRecordView { component_cursor: (start + k) as usize, ..record },
                    config,
                    selected_at(record, config, start + k).len(),
                ) == start + k + 1
            &&& forall|k: int|
                0 <= k < n ==> (#[trigger] (start + k + 1)) % n == if (start + k) % n == n - 1 {
                    0
                } else {
                    (start + k) % n + 1
                }
            &&& forall|k: int, l: int|
                0 <= k < l < n ==> #[trigger] selected_at(record, config, start + k)
                    != #[trigger] selected_at(record, config, start + l)
            &&& forall|id: Seq<char>| #[trigger]
                record.candidate.mutable_components.contains_key(id) ==> exists|k: int|
                    0 <= k < n && #[trigger] selected_at(record, config, start + k) == seq![id]
        }),
{
    let ids = in_order(record.candidate.mutable_components.dom());
    let n = ids.len() as int;
    assert forall|k: int| 0 <= k < n implies #[trigger] selected_at(record, config, start + k)
        == seq![ids[(start + k) % n]] by {}
    assert forall|k: int| 0 <= k < n implies (#[trigger] (start + k + 1)) % n == if (start + k)
        % n == n - 1 {
        0
    } else {
        (start + k) % n + 1
    } by {
        lemma_next_turn(start + k, n);
    }
    assert forall|k: int, l: int| 0 <= k < l < n implies #[trigger] selected_at(
        record,
        config,
        start + k,
    ) != #[trigger] selected_at(record, config, start + l) by {
        lemma_turns_differ(start as int, n, k, l);
        let a = (start + k) % n;
        let b = (start + l) % n;
        assert(0 <= a < n && 0 <= b < n);
        lemma_text_lt_irreflexive(ids[a]);
        if a < b {
            assert(text_lt(ids[a], ids[b]));
        } else {
            assert(text_lt(ids[b], ids[a]));
        }
        assert(selected_at(record, config, start + k)[0] == ids[a]);
        assert(selected_at(record, config, start + l)[0] == ids[b]);
    }
    assert forall|id: Seq<char>| #[trigger]
        record.candidate.mutable_components.contains_key(id) implies exists|k: int|
        0 <= k < n && #[trigger] selected_at(record, config, start + k) == seq![id] by {
        assert(ids.contains(id));
        let i = choose|i: int| 0 <= i < ids.len() && ids[i] == id;
        let k = lemma_turn_of(start as int, n, i);
        assert(selected_at(record, config, start + k) == seq![id]);
    }
}

proof fn lemma_next_turn(c: int, n: int)
    requires
        0 <= c,
        0 < n,
    ensures
        (c + 1) % n == if c % n == n - 1 {
            0
        } else {
            c % n + 1
        },
{
    vstd::arithmetic::div_mod::lemma_fundamental_div_mod(c, n);
    let q = c / n;
    if c % n == n - 1 {
        assert(c + 1 == (q + 1) * n + 0) by (nonlinear_arith)
            requires
                c == n * q + (n - 1),
        ;
        vstd::arithmetic::div_mod::lemma_fundamental_div_mod_converse(c + 1, n, q + 1, 0);
    } else {
        let r = c % n;
        assert(c + 1 == q * n + (r + 1)) by (nonlinear_arith)
            requires
                c == n * q + r,
        ;
        vstd::arithmetic::div_mod::lemma_fundamental_div_mod_converse(c + 1, n, q, r + 1);
    }
}

pub proof fn lemma_turn_of(start: int, n: int, i: int) -> (k: int)
    requires
        0 <= start,
        0 <= i < n,
    ensures
        0 <= k < n,
        (start + k) % n == i,
{
    vstd::arithmetic::div_mod::lemma_fundamental_div_mod(start, n);
    let q = start / n;
    let r = start % n;
    if i >= r {
        assert(start + (i - r) == q * n + i) by (nonlinear_arith)
            requires
                start == n * q + r,
        ;
        vstd::arithmetic::div_mod::lemma_fundamental_div_mod_converse(start + (i - r), n, q, i);
        i - r
    } else {
        assert(start + (i - r + n) == (q + 1) * n + i) by (nonlinear_arith)
            requires
                start == n * q + r,
        ;
        vstd::arithmetic::div_mod::lemma_fundamental_div_mod_converse(
            start + (i - r + n),
            n,
            q + 1,
            i,
        );
        i - r + n
    }
}

/// The place of the parent among the candidates. `best` is the place of the best candidate.
pub open spec fn parent_index(
    states: Seq<CandidateEvaluationView>,
    config: OptimizationConfigView,
    iteration: nat,
    best: Option<usize>,
) -> Option<int> {
    let best: Option<int> = match best {
        Some(i) => Some(i as int),
        None => None,
    };
    let pareto = pareto_parent(states, iteration);
    let n = states.len();
    let chosen: Option<int> = match config.candidate_selection {
        CandidateSelection::CurrentBest => best,
        CandidateSelection::Pareto => pareto,
        CandidateSelection::EpsilonGreedy => if iteration % 10 == 0 {
            Some(iteration as int % (if n > 1 {
                n as int
            } else {
                1
            }))
        } else {
            pareto
        },
    };
    match chosen {
        Some(i) => if i < n {
            Some(i)
        } else {
            None
        },
        None => None,
    }
}

/// Selects the parent of the next proposal.
pub fn select_parent(
    states: &[CandidateEvaluation],
    config: &OptimizationConfig,
    iteration: usize,
    best: Option<usize>,
) -> (r: Option<usize>)
    ensures
        match r {
            Some(i) => parent_index(views(states@), config@, iteration as nat, best) == Some(
                i as int,
            ),
            None => parent_index(views(states@), config@, iteration as nat, best) is None,
        },
{
    let n: usize = states.len();
    assert(views(states@).len() == n);
    let pareto: Option<usize> = select_pareto_parent(states, iteration);
    let chosen: Option<usize> = match config.candidate_selection {
        CandidateSelection::CurrentBest => best,
        CandidateSelection::Pareto => pareto,
        CandidateSelection::EpsilonGreedy => if iteration % 10 == 0 {
            Some(iteration % (if n > 1 {
                n
            } else {
                1
            }))
        } else {
            pareto
        },
    };
    match chosen {
        Some(i) => if i < n {
            Some(i)
        } else {
            None
        },
        None => None,
    }
}

/// The greatest generation of the records, or zero.
pub open spec fn greatest_generation(records: Seq<CandidateRecordView>) -> usize
    decreases records.len(),
{
    if records.len() == 0 {
        0
    } else {
        let before = greatest_generation(records.drop_last());
        if before < records.last().generation {
            records.last().generation
        } else {
            before
        }
    }
}

/// The generation that a run goes on with.
pub fn next_generation(records: &[CandidateRecord]) -> (r: usize)
    ensures
        r == greatest_generation(views(records@)),
{
    let ghost all = views(records@);
    let mut greatest: usize = 0;
    let mut i: usize = 0;
    while i < records.len()
        invariant
            i <= records@.len(),
            all == views(records@),
            greatest == greatest_generation(all.take(i as int)),
        decreases records@.len() - i,
    {
        assert(all.take(i + 1).drop_last() =~= all.take(i as int));
        if greatest < records[i].generation {
            greatest = records[i].generation;
        }
        i = i + 1;
    }
    assert(all.take(i as int) =~= all);
    greatest
}

/// No record has a greater generation than the one that a run goes on with, and unless there is
/// none, one of them has it.
pub proof fn runs_go_on_with_greatest_generation(records: Seq<CandidateRecordView>)
    ensures
        forall|i: int|
            0 <= i < records.len() ==> (#[trigger] records[i]).generation <= greatest_generation(
                records,
            ),
        records.len() > 0 ==> exists|i: int|
            0 <= i < records.len() && (#[trigger] records[i]).generation == greatest_generation(
                records,
            ),
    decreases records.len(),
{
    if records.len() > 0 {
        let before = records.drop_last();
        runs_go_on_with_greatest_generation(before);
        assert forall|i: int| 0 <= i < records.len() implies (#[trigger] records[i]).generation
            <= greatest_generation(records) by {
            if i < before.len() {
                assert(before[i] == records[i]);
            }
        }
        if greatest_generation(before) < records.last().generation || before.len() == 0 {
            assert(records[records.len() - 1].generation == greatest_generation(records));
        } else {
            let i = choose|i: int|
                0 <= i < before.len() && (#[trigger] before[i]).generation == greatest_generation(
                    before,
                );
            assert(records[i].generation == greatest_generation(records));
        }
    }
}

/// The record of a run: a run from the cache costs no metric calls, and any other at least one.
pub open spec fn run_record(
    candidate: CandidateView,
    fingerprint: Seq<char>,
    run: ExampleRunView,
    cache_hit: bool,
) -> EvaluationRecordView {
    EvaluationRecordView {
        candidate_id: candidate.id,
        candidate_fingerprint: fingerprint,
        example_id: run.result.example_id,
        split: run.result.split,
        score: run.result.score,
        metrics: run.result.metrics,
        feedback: run.result.feedback,
        diagnostics: run.result.diagnostics,
        artifacts: run.artifacts,
        trace: run.trace,
        metric_calls: if cache_hit {
            0
        } else if run.metric_calls > 1 {
            run.metric_calls
        } else {
            1
        },
        cache_hit,
    }
}

/// Makes the record of a run.
pub fn example_run_record(
    candidate: &Candidate,
    candidate_fingerprint: &str,
    run: &ExampleRun,
    cache_hit: bool,
) -> (r: EvaluationRecord)
    ensures
        r@ == run_record(candidate@, candidate_fingerprint@, run@, cache_hit),
{
    EvaluationRecord {
        candidate_id: candidate.id.clone(),
        candidate_fingerprint: candidate_fingerprint.to_string(),
        example_id: run.result.example_id.clone(),
        split: run.result.split,
        score: run.result.score,
        metrics: run.result.metrics.duplicate(),
        feedback: duplicate_opt(&run.result.feedback),
        diagnostics: run.result.diagnostics.duplicate(),
        artifacts: run.artifacts.duplicate(),
        trace: duplicate_opt(&run.trace),
        metric_calls: if cache_hit {
            0
        } else if run.metric_calls > 1 {
            run.metric_calls
        } else {
            1
        },
        cache_hit,
    }
}

} // verus!
