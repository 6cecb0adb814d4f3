//! Laws of the scores of the synthetic task.

use vstd::prelude::*;

use crate::json::{lookup, member, JsonView};
use crate::model::{
    CandidateView, ComponentValueView, HarnessExampleView, HarnessOptErrorView, Split,
};
use crate::score::Score;
use crate::synthetic_task::{
    example, instruction_and_question, scored_response, synthetic_seed, train_examples,
    val_examples, SYNTH_QA_COMPONENT_ID, SYNTH_SEED_PROMPT,
};
use crate::text::{is_space, trimmed, trimmed_end, trimmed_start};

verus! {

proof fn lemma_trimmed_start(space: Seq<char>, rest: Seq<char>)
    requires
        forall|i: int| 0 <= i < space.len() ==> is_space(#[trigger] space[i]),
    ensures
        trimmed_start(space + rest) == trimmed_start(rest),
    decreases space.len(),
{
    if space.len() > 0 {
        let fewer = space.drop_first();
        assert forall|i: int| 0 <= i < fewer.len() implies is_space(#[trigger] fewer[i]) by {
            assert(fewer[i] == space[i + 1]);
        }
        lemma_trimmed_start(fewer, rest);
        assert((space + rest).first() == space[0]);
        assert((space + rest).drop_first() =~= fewer + rest);
    } else {
        assert(space + rest =~= rest);
    }
}

proof fn lemma_trimmed_end(rest: Seq<char>, space: Seq<char>)
    requires
        forall|i: int| 0 <= i < space.len() ==> is_space(#[trigger] space[i]),
    ensures
        trimmed_end(rest + space) == trimmed_end(rest),
    decreases space.len(),
{
    if space.len() > 0 {
        let fewer = space.drop_last();
        assert forall|i: int| 0 <= i < fewer.len() implies is_space(#[trigger] fewer[i]) by {
            assert(fewer[i] == space[i]);
        }
        lemma_trimmed_end(rest, fewer);
        assert((rest + space).last() == space.last());
        assert(space[space.len() - 1] == space.last());
        assert((rest + space).drop_last() =~= rest + fewer);
    } else {
        assert(rest + space =~= rest);
    }
}

/// What is left of a text between white space is the text, where it does not start or end with
/// white space itself.
pub proof fn trimming_removes_surrounding_space(
    before: Seq<char>,
    text: Seq<char>,
    after: Seq<char>,
)
    requires
        forall|i: int| 0 <= i < before.len() ==> is_space(#[trigger] before[i]),
        forall|i: int| 0 <= i < after.len() ==> is_space(#[trigger] after[i]),
        text.len() > 0 ==> !is_space(text[0]) && !is_space(text[text.len() - 1]),
    ensures
        trimmed(before + text + after) == text,
{
    assert(before + text + after =~= before + (text + after));
    lemma_trimmed_start(before, text + after);
    if text.len() > 0 {
        assert((text + after).first() == text[0]);
        assert(trimmed_start(text + after) == text + after);
        lemma_trimmed_end(text, after);
        assert(text.last() == text[text.len() - 1]);
    } else {
        assert(text + after =~= after);
        assert(after + Seq::<char>::empty() =~= after);
        lemma_trimmed_start(after, Seq::empty());
        assert(text =~= Seq::empty());
    }
}

/// A response passes exactly when the text between the white space around it is the whole text
/// under `answer` of what is expected, and the empty text where there is none. It scores one where
/// it passes, and zero where it does not.
pub proof fn responses_pass_exactly_with_the_whole_answer(
    before: Seq<char>,
    text: Seq<char>,
    after: Seq<char>,
    members: Seq<(Seq<char>, JsonView)>,
    at: int,
    answer: Seq<char>,
    example_id: Seq<char>,
    split: Split,
)
    requires
        forall|i: int| 0 <= i < before.len() ==> is_space(#[trigger] before[i]),
        forall|i: int| 0 <= i < after.len() ==> is_space(#[trigger] after[i]),
        text.len() > 0 ==> !is_space(text[0]) && !is_space(text[text.len() - 1]),
        0 <= at < members.len(),
        members[at] == ("answer"@, JsonView::Text(answer)),
        forall|i: int| 0 <= i < at ==> (#[trigger] members[i]).0 != "answer"@,
    ensures
        ({
            let result = scored_response(
                before + text + after,
                Some(JsonView::Object(members)),
                example_id,
                split,
            );
            &&& result.example_id == example_id
            &&& result.split == split
            &&& result.passed == Some(text == answer)
            &&& result.score.bits == if text == answer {
                0x3ff0_0000_0000_0000u64
            } else {
                0u64
            }
        }),
{
    trimming_removes_surrounding_space(before, text, after);
    lemma_lookup(members, "answer"@, at);
}

/// Where nothing is expected, only white space passes.
pub proof fn without_an_answer_only_silence_passes(
    before: Seq<char>,
    text: Seq<char>,
    after: Seq<char>,
    example_id: Seq<char>,
    split: Split,
)
    requires
        forall|i: int| 0 <= i < before.len() ==> is_space(#[trigger] before[i]),
        forall|i: int| 0 <= i < after.len() ==> is_space(#[trigger] after[i]),
        text.len() > 0 ==> !is_space(text[0]) && !is_space(text[text.len() - 1]),
    ensures
        scored_response(before + text + after, None, example_id, split).passed == Some(
            text.len() == 0,
        ),
        scored_response(before + text + after, None, example_id, split).score == (Score {
            bits: if text.len() == 0 {
                0x3ff0_0000_0000_0000
            } else {
                0
            },
        }),
{
    trimming_removes_surrounding_space(before, text, after);
    reveal_strlit("");
    assert(text.len() == 0 ==> text =~= ""@);
}

/// The value of a name is that of the first member of that name.
pub proof fn lemma_lookup(members: Seq<(Seq<char>, JsonView)>, key: Seq<char>, at: int)
    requires
        0 <= at < members.len(),
        members[at].0 == key,
        forall|i: int| 0 <= i < at ==> (#[trigger] members[i]).0 != key,
    ensures
        lookup(members, key) == Some(members[at].1),
    decreases at,
{
    if at > 0 {
        let rest = members.drop_first();
        assert(members[0].0 != key);
        assert forall|i: int| 0 <= i < at - 1 implies (#[trigger] rest[i]).0 != key by {
            assert(rest[i] == members[i + 1]);
        }
        assert(rest[at - 1] == members[at]);
        lemma_lookup(rest, key, at - 1);
    }
}

/// The feedback on a response names the answer; that on a wrong one the first two hundred
/// characters of the response too. The diagnostics say which it was.
pub proof fn feedback_names_the_answer(
    response: Seq<char>,
    members: Seq<(Seq<char>, JsonView)>,
    answer: Seq<char>,
    example_id: Seq<char>,
    split: Split,
)
    requires
        lookup(members, "answer"@) == Some(JsonView::Text(answer)),
    ensures
        ({
            let result = scored_response(
                response,
                Some(JsonView::Object(members)),
                example_id,
                split,
            );
            let outcome = result.diagnostics["turn_outcome"@];
            &&& result.diagnostics.contains_key("turn_outcome"@)
            &&& result.passed == Some(true) ==> result.feedback == Some(
                "Correct. Trimmed response exactly equals the expected answer '"@ + answer
                    + "'."@,
            ) && outcome == JsonView::Text("correct"@)
            &&& result.passed == Some(false) && trimmed(response).len() <= 200
                ==> result.feedback == Some(
                "Incorrect. Expected trimmed response to equal '"@ + answer
                    + "' exactly (case-sensitive), but got: '"@ + trimmed(response) + "'"@,
            )
            &&& result.passed == Some(false) && trimmed(response).len() > 200
                ==> result.feedback == Some(
                "Incorrect. Expected trimmed response to equal '"@ + answer
                    + "' exactly (case-sensitive), but got: '"@ + trimmed(response).take(200)
                    + "'"@,
            )
            &&& result.passed == Some(false) ==> outcome == JsonView::Text("incorrect"@)
        }),
{
    reveal_strlit("turn_outcome");
    reveal_strlit("tool_call_count");
    reveal_strlit("error_count");
    reveal_strlit("answer_length");
    reveal_strlit("response_length");
    assert("turn_outcome"@.len() == 12 && "tool_call_count"@.len() == 15 && "error_count"@.len()
        == 11);
}

/// A question is asked exactly where the candidate has a text as instruction and the example a
/// question; both are taken over as they are.
pub proof fn questions_are_asked_under_the_instruction(
    candidate: CandidateView,
    example: HarnessExampleView,
    question: Seq<char>,
)
    ensures
        ({
            let id = SYNTH_QA_COMPONENT_ID@;
            let asked = instruction_and_question(candidate, example);
            &&& candidate.mutable_components.contains_key(id)
                && candidate.mutable_components[id].value is Text && member(
                example.input,
                "question"@,
            ) == Some(JsonView::Text(question)) ==> asked == Ok::<
                (Seq<char>, Seq<char>),
                HarnessOptErrorView,
            >((candidate.mutable_components[id].value->text, question))
            &&& !candidate.mutable_components.contains_key(id) ==> asked is Err
            &&& candidate.mutable_components.contains_key(id)
                && candidate.mutable_components[id].value !is Text ==> asked is Err
            &&& member(example.input, "question"@) is None ==> asked is Err
        }),
{
}

/// The seed of the task has one component, which the constraints hold to two thousand characters.
pub proof fn the_seed_has_one_instruction(id: Seq<char>)
    ensures
        ({
            let seed = synthetic_seed();
            let component = seed.mutable_components[SYNTH_QA_COMPONENT_ID@];
            &&& seed.id == "seed"@
            &&& seed.parent_id is None
            &&& seed.mutable_components.contains_key(id) <==> id == SYNTH_QA_COMPONENT_ID@
            &&& component.id == SYNTH_QA_COMPONENT_ID@
            &&& component.value == (ComponentValueView::Text { text: SYNTH_SEED_PROMPT@ })
            &&& component.constraints.max_chars == Some(2000usize)
            &&& component.constraints.preserve_terms.len() == 0
            &&& component.constraints.forbidden_terms.len() == 0
        }),
{
}

/// An example asks its question and is passed by its answer.
pub proof fn examples_are_passed_by_their_answers(
    id: Seq<char>,
    split: Split,
    question: Seq<char>,
    answer: Seq<char>,
    ty: Seq<char>,
)
    requires
        answer.len() > 0,
        !is_space(answer[0]),
        !is_space(answer[answer.len() - 1]),
    ensures
        ({
            let made = example(id, split, question, answer, ty);
            &&& made.id == id
            &&& made.split == split
            &&& member(made.input, "question"@) == Some(JsonView::Text(question))
            &&& scored_response(answer, made.expected, id, split).passed == Some(true)
        }),
{
    let made = example(id, split, question, answer, ty);
    let members = made.expected->0->Object_0;
    let empty = Seq::<char>::empty();
    responses_pass_exactly_with_the_whole_answer(
        empty,
        answer,
        empty,
        members,
        0,
        answer,
        id,
        split,
    );
    assert(empty + answer + empty =~= answer);
}

/// The examples to train on belong to the training set, and those to validate on to the validation
/// set.
pub proof fn examples_belong_to_their_set(i: int)
    ensures
        0 <= i < train_examples().len() ==> train_examples()[i].split == Split::Train,
        0 <= i < val_examples().len() ==> val_examples()[i].split == Split::Val,
{
}

} // verus!
