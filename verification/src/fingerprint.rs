//! Fingerprints of candidates and the keys of cached evaluations.

use std::collections::hash_map::DefaultHasher;
use std::hash::Hasher;

use vstd::bytes::{spec_u64_to_le_bytes, u64_to_le_bytes};
use vstd::prelude::*;
use vstd::std_specs::hash::*;
use vstd::string::*;
use vstd::utf8::encode_utf8;

use crate::json::{
    add_member, compact, json_texts, lemma_object_tree, member_views, object_of, put_member,
    put_members_are_found, text_array, unsigned_number, with_member, Json, JsonView,
};
use crate::model::{
    Candidate, CandidateView, ComponentConstraints, ComponentConstraintsView, ComponentValue,
    ComponentValueView, HarnessExample, HarnessExampleView, HarnessOptError, MutableComponent,
    MutableComponentView, PromptContribution, PromptContributionView, Split,
};
use crate::string_map::{in_order, StringMap};
use crate::text::{digits, hex16};
use crate::views::{lemma_take_next, Duplicate};

verus! {

/// The members with one more at their end, where there is a value for it.
pub open spec fn with_optional(
    members: Seq<(Seq<char>, JsonView)>,
    key: Seq<char>,
    value: Option<JsonView>,
) -> Seq<(Seq<char>, JsonView)> {
    match value {
        Some(v) => members.push((key, v)),
        None => members,
    }
}

/// The JSON document of the constraints: what is not set is left out.
pub open spec fn constraints_document(constraints: ComponentConstraintsView) -> JsonView {
    let m0: Seq<(Seq<char>, JsonView)> = Seq::empty();
    let m1 = with_optional(
        m0,
        "max_chars"@,
        match constraints.max_chars {
            Some(n) => Some(unsigned_number(n as nat)),
            None => None,
        },
    );
    let m2 = with_optional(
        m1,
        "preserve_terms"@,
        if constraints.preserve_terms.len() > 0 {
            Some(text_array(constraints.preserve_terms))
        } else {
            None
        },
    );
    let m3 = with_optional(
        m2,
        "forbidden_terms"@,
        if constraints.forbidden_terms.len() > 0 {
            Some(text_array(constraints.forbidden_terms))
        } else {
            None
        },
    );
    let m4 = with_optional(
        m3,
        "format_hint"@,
        match constraints.format_hint {
            Some(hint) => Some(JsonView::Text(hint)),
            None => None,
        },
    );
    JsonView::Object(m4)
}

/// The JSON document of a prompt contribution: its own, with its content in it.
pub open spec fn contribution_document(contribution: PromptContributionView) -> JsonView {
    let members = match contribution.document {
        JsonView::Object(members) => members,
        _ => Seq::empty(),
    };
    JsonView::Object(with_member(members, "content"@, JsonView::Text(contribution.content)))
}

/// The document of a prompt contribution tells its content.
pub proof fn contributions_tell_their_content(a: PromptContributionView, b: PromptContributionView)
    requires
        contribution_document(a) == contribution_document(b),
    ensures
        a.content == b.content,
{
    let members = |c: PromptContributionView|
        match c.document {
            JsonView::Object(members) => members,
            _ => Seq::empty(),
        };
    put_members_are_found(members(a), "content"@, JsonView::Text(a.content), "content"@);
    put_members_are_found(members(b), "content"@, JsonView::Text(b.content), "content"@);
}

/// The JSON document of a value: its kind, and what it holds.
pub open spec fn value_document(value: ComponentValueView) -> JsonView {
    let (kind, key, held) = match value {
        ComponentValueView::Text { text } => ("text"@, "text"@, JsonView::Text(text)),
        ComponentValueView::Json { value } => ("json"@, "value"@, value),
        ComponentValueView::PromptTemplate { template } => (
            "prompt_template"@,
            "template"@,
            template.document,
        ),
        ComponentValueView::PromptContribution { contribution } => (
            "prompt_contribution"@,
            "contribution"@,
            contribution_document(contribution),
        ),
    };
    JsonView::Object(seq![("kind"@, JsonView::Text(kind)), (key, held)])
}

/// The JSON document of a component.
pub open spec fn component_document(component: MutableComponentView) -> JsonView {
    JsonView::Object(
        with_optional(
            seq![("id"@, JsonView::Text(component.id))],
            "description"@,
            match component.description {
                Some(text) => Some(JsonView::Text(text)),
                None => None,
            },
        ).push(("value"@, value_document(component.value))).push(
            ("constraints"@, constraints_document(component.constraints)),
        ),
    )
}

/// The JSON document of components, in the order of their keys.
pub open spec fn components_document(
    components: Map<Seq<char>, MutableComponentView>,
) -> JsonView {
    let keys = in_order(components.dom());
    JsonView::Object(
        Seq::new(keys.len(), |i: int| (keys[i], component_document(components[keys[i]]))),
    )
}

/// The JSON document that a fingerprint is taken of.
pub open spec fn fingerprint_document(candidate: CandidateView) -> JsonView {
    JsonView::Object(
        seq![
            ("mutable_components"@, components_document(candidate.mutable_components)),
            ("immutable_context"@, object_of(candidate.immutable_context)),
        ],
    )
}

/// What is hashed of a candidate: the length of its document, and the bytes of it.
pub open spec fn hashed(candidate: CandidateView) -> Seq<Seq<u8>> {
    let bytes = encode_utf8(compact(fingerprint_document(candidate)));
    seq![spec_u64_to_le_bytes(bytes.len() as u64), bytes]
}

/// The fingerprint of a candidate: the hash of its document, in hexadecimal.
pub open spec fn fingerprint(candidate: CandidateView) -> Seq<char> {
    digits(DefaultHasher::spec_finish(hashed(candidate)) as nat, 16, 16)
}

/// The place of a split in the order of splits.
pub open spec fn split_index(split: Split) -> u64 {
    match split {
        Split::Train => 0,
        Split::Val => 1,
        Split::Test => 2,
    }
}

/// What is hashed of an evaluation: the fingerprint of the candidate, the id of the example and its
/// split. A byte that no text holds ends each text.
pub open spec fn hashed_evaluation(
    candidate: CandidateView,
    example: HarnessExampleView,
) -> Seq<Seq<u8>> {
    seq![
        encode_utf8(fingerprint(candidate)),
        seq![0xffu8],
        encode_utf8(example.id),
        seq![0xffu8],
        spec_u64_to_le_bytes(split_index(example.split)),
    ]
}

/// The key under which the evaluation of a candidate on an example is cached: a hash, in
/// hexadecimal.
pub open spec fn cache_key(candidate: CandidateView, example: HarnessExampleView) -> Seq<char> {
    digits(DefaultHasher::spec_finish(hashed_evaluation(candidate, example)) as nat, 16, 16)
}

/// The fingerprint of a candidate tells nothing of its lineage and its metadata: candidates with
/// the same components and the same context have the same fingerprint.
pub proof fn fingerprint_excludes_lineage_and_metadata(a: CandidateView, b: CandidateView)
    requires
        a.mutable_components == b.mutable_components,
        a.immutable_context == b.immutable_context,
    ensures
        fingerprint(a) == fingerprint(b),
        forall|example: HarnessExampleView| cache_key(a, example) == cache_key(b, example),
{
}

fn document_of_constraints(constraints: &ComponentConstraints) -> (r: Json)
    ensures
        r@ == constraints_document(constraints@),
{
    let mut members: Vec<(String, Json)> = Vec::new();
    assert(member_views(members@) =~= Seq::empty());
    if let Some(n) = constraints.max_chars {
        add_member(&mut members, "max_chars", Json::unsigned(n as u64));
    }
    if constraints.preserve_terms.len() > 0 {
        add_member(&mut members, "preserve_terms", json_texts(&constraints.preserve_terms));
    }
    if constraints.forbidden_terms.len() > 0 {
        add_member(&mut members, "forbidden_terms", json_texts(&constraints.forbidden_terms));
    }
    if let Some(hint) = &constraints.format_hint {
        add_member(&mut members, "format_hint", Json::text(hint.as_str()));
    }
    Json::object(members)
}

fn document_of_contribution(contribution: &PromptContribution) -> (r: Json)
    ensures
        r@ == contribution_document(contribution@),
{
    let mut members: Vec<(String, Json)> = match contribution.document.duplicate() {
        Json::Object(members) => {
            proof {
                lemma_object_tree(members);
            }
            members
        },
        _ => Vec::new(),
    };
    assert(contribution@.document !is Object ==> member_views(members@) =~= Seq::empty());
    put_member(&mut members, "content", Json::text(contribution.content.as_str()));
    Json::object(members)
}

fn document_of_value(value: &ComponentValue) -> (r: Json)
    ensures
        r@ == value_document(value@),
{
    let (kind, key, held): (&str, &str, Json) = match value {
        ComponentValue::Text { text } => ("text", "text", Json::text(text.as_str())),
        ComponentValue::Json { value } => ("json", "value", value.duplicate()),
        ComponentValue::PromptTemplate { template } => (
            "prompt_template",
            "template",
            template.document.duplicate(),
        ),
        ComponentValue::PromptContribution { contribution } => (
            "prompt_contribution",
            "contribution",
            document_of_contribution(contribution),
        ),
    };
    let mut members: Vec<(String, Json)> = Vec::new();
    let ghost v = held@;
    add_member(&mut members, "kind", Json::text(kind));
    add_member(&mut members, key, held);
    assert(member_views(members@) =~= seq![("kind"@, JsonView::Text(kind@)), (key@, v)]);
    Json::object(members)
}

fn document_of_component(component: &MutableComponent) -> (r: Json)
    ensures
        r@ == component_document(component@),
{
    let mut members: Vec<(String, Json)> = Vec::new();
    add_member(&mut members, "id", Json::text(component.id.as_str()));
    assert(member_views(members@) =~= seq![("id"@, JsonView::Text(component@.id))]);
    if let Some(description) = &component.description {
        add_member(&mut members, "description", Json::text(description.as_str()));
    }
    add_member(&mut members, "value", document_of_value(&component.value));
    add_member(&mut members, "constraints", document_of_constraints(&component.constraints));
    Json::object(members)
}

/// The JSON document of components.
pub fn document_of_components(components: &StringMap<MutableComponent>) -> (r: Json)
    ensures
        r@ == components_document(components@),
{
    let n: usize = components.len();
    let ghost keys = in_order(components@.dom());
    let ghost whole = Seq::new(
        keys.len(),
        |i: int| (keys[i], component_document(components@[keys[i]])),
    );
    let mut members: Vec<(String, Json)> = Vec::new();
    let mut i: usize = 0;
    assert(member_views(members@) =~= whole.take(0));
    while i < n
        invariant
            i <= n,
            n == keys.len(),
            keys == in_order(components@.dom()),
            whole == Seq::new(
                keys.len(),
                |i: int| (keys[i], component_document(components@[keys[i]])),
            ),
            member_views(members@) == whole.take(i as int),
        decreases n - i,
    {
        let document: Json = document_of_component(components.value_at(i));
        proof {
            lemma_take_next(whole, i as int);
        }
        add_member(&mut members, components.key_at(i).as_str(), document);
        i = i + 1;
    }
    assert(whole.take(n as int) =~= whole);
    Json::object(members)
}

/// The fingerprint of a candidate.
pub fn candidate_fingerprint(candidate: &Candidate) -> (r: Result<String, HarnessOptError>)
    ensures
        match r {
            Ok(text) => text@ == fingerprint(candidate@),
            Err(_) => false,
        },
{
    let mut members: Vec<(String, Json)> = Vec::new();
    add_member(
        &mut members,
        "mutable_components",
        document_of_components(&candidate.mutable_components),
    );
    add_member(&mut members, "immutable_context", Json::of_map(&candidate.immutable_context));
    assert(JsonView::Object(member_views(members@)) == fingerprint_document(candidate@)) by {
        assert(member_views(members@) =~= fingerprint_document(candidate@)->Object_0);
    }
    let text: String = Json::object(members).to_compact();
    let bytes: &[u8] = text.as_str().as_bytes();
    let mut hasher: DefaultHasher = DefaultHasher::new();
    hasher.write(u64_to_le_bytes(bytes.len() as u64).as_slice());
    hasher.write(bytes);
    assert(hasher@ =~= hashed(candidate@));
    Ok(hex16(hasher.finish()))
}

/// The key under which the evaluation of a candidate on an example is cached.
pub fn evaluation_cache_key(candidate: &Candidate, example: &HarnessExample) -> (r: String)
    ensures
        r@ == cache_key(candidate@, example@),
{
    let text: String = match candidate_fingerprint(candidate) {
        Ok(text) => text,
        Err(_) => candidate.id.clone(),
    };
    let index: u64 = match example.split {
        Split::Train => 0,
        Split::Val => 1,
        Split::Test => 2,
    };
    let mut end: Vec<u8> = Vec::new();
    end.push(0xff);
    assert(end@ =~= seq![0xffu8]);
    let mut hasher: DefaultHasher = DefaultHasher::new();
    hasher.write(text.as_str().as_bytes());
    hasher.write(end.as_slice());
    hasher.write(example.id.as_str().as_bytes());
    hasher.write(end.as_slice());
    hasher.write(u64_to_le_bytes(index).as_slice());
    assert(hasher@ =~= hashed_evaluation(candidate@, example@));
    hex16(hasher.finish())
}

} // verus!
