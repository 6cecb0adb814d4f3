//! Laws of fingerprints and of the keys of cached evaluations.

use std::collections::hash_map::DefaultHasher;

use vstd::bytes::lemma_auto_spec_u64_to_from_le_bytes;
use vstd::prelude::*;
use vstd::std_specs::hash::*;
use vstd::utf8::encode_utf8_decode_utf8;

use crate::fingerprint::{
    cache_key, component_document, components_document, constraints_document,
    contribution_document, fingerprint, fingerprint_document, hashed, hashed_evaluation,
    value_document,
};
use crate::json::{
    compact, lookup, object_of, put_members_are_found, text_array, unsigned_number, JsonView,
};
use crate::laws::order::finite_sets_are_listed_in_order;
use crate::laws::proposals::says;
use crate::model::{
    CandidateView, ComponentConstraintsView, ComponentValueView, HarnessExampleView,
    MutableComponentView, PromptContributionView,
};
use crate::string_map::in_order;
use crate::text::digits;

verus! {

/// Whether two prompt contributions say the same: the same content, and the same under every other
/// name.
pub open spec fn same_contribution(a: PromptContributionView, b: PromptContributionView) -> bool {
    &&& a.content == b.content
    &&& a.document is Object && b.document is Object ==> forall|name: Seq<char>|
        name != "content"@ ==> #[trigger] lookup(a.document->Object_0, name) == lookup(
            b.document->Object_0,
            name,
        )
}

/// Whether two values are the same.
pub open spec fn same_value(a: ComponentValueView, b: ComponentValueView) -> bool {
    match (a, b) {
        (ComponentValueView::Text { text: s }, ComponentValueView::Text { text: t }) => s == t,
        (ComponentValueView::Json { value: v }, ComponentValueView::Json { value: w }) => v == w,
        (
            ComponentValueView::PromptTemplate { template: s },
            ComponentValueView::PromptTemplate { template: t },
        ) => s == t,
        (
            ComponentValueView::PromptContribution { contribution: c },
            ComponentValueView::PromptContribution { contribution: d },
        ) => same_contribution(c, d),
        _ => false,
    }
}

/// Whether two components are the same.
pub open spec fn same_component(a: MutableComponentView, b: MutableComponentView) -> bool {
    &&& a.id == b.id
    &&& a.description == b.description
    &&& same_value(a.value, b.value)
    &&& a.constraints.max_chars == b.constraints.max_chars
    &&& a.constraints.preserve_terms == b.constraints.preserve_terms
    &&& a.constraints.forbidden_terms == b.constraints.forbidden_terms
    &&& a.constraints.format_hint == b.constraints.format_hint
}

/// The document that a fingerprint is taken of determines what the candidate is made of:
/// candidates with the same document have the same components under the same names, and the same
/// context.
pub proof fn documents_tell_the_components(a: CandidateView, b: CandidateView)
    requires
        a.mutable_components.dom().finite(),
        b.mutable_components.dom().finite(),
        a.immutable_context.dom().finite(),
        b.immutable_context.dom().finite(),
        fingerprint_document(a) == fingerprint_document(b),
    ensures
        forall|name: Seq<char>| #[trigger]
            a.mutable_components.contains_key(name) <==> b.mutable_components.contains_key(name),
        forall|name: Seq<char>| #[trigger]
            a.mutable_components.contains_key(name) ==> same_component(
                a.mutable_components[name],
                b.mutable_components[name],
            ),
        a.immutable_context == b.immutable_context,
{
    let x = fingerprint_document(a)->Object_0;
    let y = fingerprint_document(b)->Object_0;
    assert(x[0] == y[0] && x[1] == y[1]);
    lemma_components(a.mutable_components, b.mutable_components);
    let c = a.immutable_context;
    let d = b.immutable_context;
    finite_sets_are_listed_in_order(c.dom());
    finite_sets_are_listed_in_order(d.dom());
    let kc = in_order(c.dom());
    let kd = in_order(d.dom());
    let dc = object_of(c)->Object_0;
    let dd = object_of(d)->Object_0;
    assert(dc == dd);
    assert(dc.len() == kc.len() && dd.len() == kd.len());
    assert forall|i: int| 0 <= i < kc.len() implies kc[i] == kd[i] && c[#[trigger] kc[i]]
        == d[kc[i]] by {
        assert(dc[i] == (kc[i], c[kc[i]]));
        assert(dd[i] == (kd[i], d[kd[i]]));
    }
    assert(kc =~= kd);
    assert forall|name: Seq<char>| #[trigger] c.contains_key(name) <==> d.contains_key(name) by {
        assert(kc.contains(name) <==> c.dom().contains(name));
        assert(kd.contains(name) <==> d.dom().contains(name));
    }
    assert forall|name: Seq<char>| #[trigger] c.contains_key(name) implies c[name] == d[name] by {
        assert(kc.contains(name) <==> c.dom().contains(name));
        let i = choose|i: int| 0 <= i < kc.len() && kc[i] == name;
        assert(c[kc[i]] == d[kc[i]]);
    }
    assert(c =~= d);
}

/// Components with the same document are the same under the same names.
pub proof fn lemma_components(
    p: Map<Seq<char>, MutableComponentView>,
    q: Map<Seq<char>, MutableComponentView>,
)
    requires
        p.dom().finite(),
        q.dom().finite(),
        components_document(p) == components_document(q),
    ensures
        forall|name: Seq<char>| #[trigger] p.contains_key(name) <==> q.contains_key(name),
        forall|name: Seq<char>| #[trigger]
            p.contains_key(name) ==> same_component(p[name], q[name]),
{
    finite_sets_are_listed_in_order(p.dom());
    finite_sets_are_listed_in_order(q.dom());
    let kp = in_order(p.dom());
    let kq = in_order(q.dom());
    let dp = components_document(p)->Object_0;
    let dq = components_document(q)->Object_0;
    assert(dp.len() == kp.len() && dq.len() == kq.len());
    assert forall|i: int| 0 <= i < kp.len() implies kp[i] == kq[i] && component_document(
        p[#[trigger] kp[i]],
    ) == component_document(q[kp[i]]) by {
        assert(dp[i] == (kp[i], component_document(p[kp[i]])));
        assert(dq[i] == (kq[i], component_document(q[kq[i]])));
    }
    assert(kp =~= kq);
    assert forall|name: Seq<char>| #[trigger] p.contains_key(name) <==> q.contains_key(name) by {
        assert(kp.contains(name) <==> p.dom().contains(name));
        assert(kq.contains(name) <==> q.dom().contains(name));
    }
    assert forall|name: Seq<char>| #[trigger] p.contains_key(name) implies same_component(
        p[name],
        q[name],
    ) by {
        assert(kp.contains(name) <==> p.dom().contains(name));
        let i = choose|i: int| 0 <= i < kp.len() && kp[i] == name;
        assert(component_document(p[kp[i]]) == component_document(q[kp[i]]));
        lemma_component(p[name], q[name]);
    }
}

proof fn lemma_component(a: MutableComponentView, b: MutableComponentView)
    requires
        component_document(a) == component_document(b),
    ensures
        same_component(a, b),
{
    reveal_strlit("description");
    reveal_strlit("value");
    let x = component_document(a)->Object_0;
    let y = component_document(b)->Object_0;
    let n = x.len() as int;
    assert(x.len() == y.len());
    assert(x[0] == y[0]);
    assert(x[0] == ("id"@, JsonView::Text(a.id)));
    assert(y[0] == ("id"@, JsonView::Text(b.id)));
    assert(x[1] == y[1]);
    assert(x[n - 1] == y[n - 1]);
    assert(x[n - 1] == ("constraints"@, constraints_document(a.constraints)));
    assert(y[n - 1] == ("constraints"@, constraints_document(b.constraints)));
    assert(x[n - 2] == y[n - 2]);
    assert(x[n - 2] == ("value"@, value_document(a.value)));
    assert(y[n - 2] == ("value"@, value_document(b.value)));
    lemma_value(a.value, b.value);
    lemma_constraints(a.constraints, b.constraints);
}

proof fn lemma_value(a: ComponentValueView, b: ComponentValueView)
    requires
        value_document(a) == value_document(b),
    ensures
        same_value(a, b),
{
    reveal_strlit("text");
    reveal_strlit("json");
    reveal_strlit("prompt_template");
    reveal_strlit("prompt_contribution");
    let x = value_document(a)->Object_0;
    let y = value_document(b)->Object_0;
    assert(x[0] == y[0] && x[1] == y[1]);
    assert("text"@[0] == 't' && "json"@[0] == 'j');
    assert("prompt_template"@.len() == 15 && "prompt_contribution"@.len() == 19);
    assert(x[0].1 == y[0].1 && x[1].1 == y[1].1);
    assert(a is Text <==> b is Text);
    assert(a is Json <==> b is Json);
    assert(a is PromptTemplate <==> b is PromptTemplate);
    if a is PromptTemplate {
        assert(a->template =~= b->template);
    }
    if a is PromptContribution && b is PromptContribution {
        let c = a->PromptContribution_contribution;
        let d = b->PromptContribution_contribution;
        assert(contribution_document(c) == contribution_document(d));
        lemma_contribution(c, d);
    }
}

proof fn lemma_contribution(c: PromptContributionView, d: PromptContributionView)
    requires
        contribution_document(c) == contribution_document(d),
    ensures
        same_contribution(c, d),
{
    crate::fingerprint::contributions_tell_their_content(c, d);
    if c.document is Object && d.document is Object {
        assert forall|name: Seq<char>| name != "content"@ implies #[trigger] lookup(
            c.document->Object_0,
            name,
        ) == lookup(d.document->Object_0, name) by {
            put_members_are_found(
                c.document->Object_0,
                "content"@,
                JsonView::Text(c.content),
                name,
            );
            put_members_are_found(
                d.document->Object_0,
                "content"@,
                JsonView::Text(d.content),
                name,
            );
        }
    }
}

proof fn lemma_texts(a: Seq<Seq<char>>, b: Seq<Seq<char>>)
    requires
        text_array(a) == text_array(b),
    ensures
        a == b,
{
    let x = text_array(a)->Array_0;
    let y = text_array(b)->Array_0;
    assert(x.len() == a.len() && y.len() == b.len());
    assert forall|i: int| 0 <= i < a.len() implies a[i] == b[i] by {
        assert(x[i] == JsonView::Text(a[i]));
        assert(y[i] == JsonView::Text(b[i]));
    }
    assert(a =~= b);
}

proof fn lemma_constraints(a: ComponentConstraintsView, b: ComponentConstraintsView)
    requires
        constraints_document(a) == constraints_document(b),
    ensures
        a.max_chars == b.max_chars,
        a.preserve_terms == b.preserve_terms,
        a.forbidden_terms == b.forbidden_terms,
        a.format_hint == b.format_hint,
{
    reveal_strlit("max_chars");
    reveal_strlit("preserve_terms");
    reveal_strlit("forbidden_terms");
    reveal_strlit("format_hint");
    let x = constraints_document(a)->Object_0;
    let y = constraints_document(b)->Object_0;
    assert(x == y);
    assert(x.len() <= 4 && y.len() <= 4);
    assert(x.len() > 0 ==> x[0] == y[0]);
    assert(x.len() > 1 ==> x[1] == y[1]);
    assert(x.len() > 2 ==> x[2] == y[2]);
    assert(x.len() > 3 ==> x[3] == y[3]);
    assert(a.max_chars == b.max_chars);
    let i: int = if a.max_chars is Some {
        1
    } else {
        0
    };
    assert(a.preserve_terms.len() > 0 ==> x.len() > i && x[i].0.len() == 14);
    assert(b.preserve_terms.len() > 0 ==> y.len() > i && y[i].0.len() == 14);
    assert(a.preserve_terms.len() == 0 ==> x.len() == i || x[i].0.len() != 14);
    assert(b.preserve_terms.len() == 0 ==> y.len() == i || y[i].0.len() != 14);
    assert(a.preserve_terms.len() > 0 <==> b.preserve_terms.len() > 0);
    assert(a.forbidden_terms.len() > 0 <==> b.forbidden_terms.len() > 0);
    assert(a.format_hint == b.format_hint);
    if a.preserve_terms.len() > 0 {
        lemma_texts(a.preserve_terms, b.preserve_terms);
    } else {
        assert(a.preserve_terms =~= b.preserve_terms);
    }
    if a.forbidden_terms.len() > 0 {
        lemma_texts(a.forbidden_terms, b.forbidden_terms);
    } else {
        assert(a.forbidden_terms =~= b.forbidden_terms);
    }
}

/// A fingerprint is sixteen hexadecimal digits, those of the hash of what determines the whole text
/// of the document.
pub proof fn fingerprints_hash_the_whole_document(a: CandidateView, b: CandidateView)
    ensures
        fingerprint(a).len() == 16,
        fingerprint(a) == digits(DefaultHasher::spec_finish(hashed(a)) as nat, 16, 16),
        hashed(a) == hashed(b) <==> compact(fingerprint_document(a)) == compact(
            fingerprint_document(b),
        ),
{
    let x = compact(fingerprint_document(a));
    let y = compact(fingerprint_document(b));
    crate::laws::text::digits_write_the_number(
        DefaultHasher::spec_finish(hashed(a)) as nat,
        16,
        16,
    );
    encode_utf8_decode_utf8(x);
    encode_utf8_decode_utf8(y);
    if hashed(a) == hashed(b) {
        assert(hashed(a)[1] == hashed(b)[1]);
    }
}

/// The key of a cached evaluation is made from a hash of what determines the fingerprint of the
/// candidate, the id of the example and its split.
pub proof fn cache_keys_hash_the_whole_evaluation(
    a: CandidateView,
    b: CandidateView,
    e: HarnessExampleView,
    f: HarnessExampleView,
)
    ensures
        cache_key(a, e).len() == 16,
        cache_key(a, e) == digits(
            DefaultHasher::spec_finish(hashed_evaluation(a, e)) as nat,
            16,
            16,
        ),
        hashed_evaluation(a, e) == hashed_evaluation(b, f) <==> fingerprint(a) == fingerprint(b)
            && e.id == f.id && e.split == f.split,
{
    crate::laws::text::digits_write_the_number(
        DefaultHasher::spec_finish(hashed_evaluation(a, e)) as nat,
        16,
        16,
    );
    encode_utf8_decode_utf8(fingerprint(a));
    encode_utf8_decode_utf8(fingerprint(b));
    encode_utf8_decode_utf8(e.id);
    encode_utf8_decode_utf8(f.id);
    lemma_auto_spec_u64_to_from_le_bytes();
    let x = hashed_evaluation(a, e);
    let y = hashed_evaluation(b, f);
    if x == y {
        assert(x[0] == y[0] && x[2] == y[2] && x[4] == y[4]);
    }
}

/// The document has the components and the context under their names; that of a component its id,
/// its value and its constraints, and its description where it has one; and that of a value its
/// kind.
pub proof fn documents_name_their_parts(candidate: CandidateView, component: MutableComponentView)
    ensures
        says(
            fingerprint_document(candidate),
            "mutable_components"@,
            components_document(candidate.mutable_components),
        ),
        says(
            fingerprint_document(candidate),
            "immutable_context"@,
            object_of(candidate.immutable_context),
        ),
        says(component_document(component), "id"@, JsonView::Text(component.id)),
        says(component_document(component), "value"@, value_document(component.value)),
        says(
            component_document(component),
            "constraints"@,
            constraints_document(component.constraints),
        ),
        component.description matches Some(text) ==> says(
            component_document(component),
            "description"@,
            JsonView::Text(text),
        ),
        component.value matches ComponentValueView::Text { text } ==> says(
            value_document(component.value),
            "kind"@,
            JsonView::Text("text"@),
        ) && says(value_document(component.value), "text"@, JsonView::Text(text)),
        component.value matches ComponentValueView::Json { value } ==> says(
            value_document(component.value),
            "kind"@,
            JsonView::Text("json"@),
        ) && says(value_document(component.value), "value"@, value),
        component.value matches ComponentValueView::PromptTemplate { template } ==> says(
            value_document(component.value),
            "kind"@,
            JsonView::Text("prompt_template"@),
        ) && says(value_document(component.value), "template"@, template.document),
        component.value matches ComponentValueView::PromptContribution { contribution } ==> says(
            value_document(component.value),
            "kind"@,
            JsonView::Text("prompt_contribution"@),
        ) && says(
            value_document(component.value),
            "contribution"@,
            contribution_document(contribution),
        ),
        component.constraints.format_hint matches Some(hint) ==> says(
            constraints_document(component.constraints),
            "format_hint"@,
            JsonView::Text(hint),
        ),
        component.constraints.max_chars matches Some(n) ==> says(
            constraints_document(component.constraints),
            "max_chars"@,
            unsigned_number(n as nat),
        ),
        component.constraints.preserve_terms.len() > 0 ==> says(
            constraints_document(component.constraints),
            "preserve_terms"@,
            text_array(component.constraints.preserve_terms),
        ),
        component.constraints.forbidden_terms.len() > 0 ==> says(
            constraints_document(component.constraints),
            "forbidden_terms"@,
            text_array(component.constraints.forbidden_terms),
        ),
{
    let x = fingerprint_document(candidate)->Object_0;
    assert(x.contains(x[0]) && x.contains(x[1]));
    let y = component_document(component)->Object_0;
    let n = y.len() as int;
    assert(y.contains(y[0]) && y.contains(y[1]) && y.contains(y[n - 1]) && y.contains(y[n - 2]));
    let z = value_document(component.value)->Object_0;
    assert(z.contains(z[0]) && z.contains(z[1]));
    let c = constraints_document(component.constraints)->Object_0;
    assert(c.len() > 0 ==> c.contains(c[0]));
    assert(c.len() > 1 ==> c.contains(c[1]));
    assert(c.len() > 2 ==> c.contains(c[2]));
    assert(c.len() > 3 ==> c.contains(c[3]));
}

} // verus!
