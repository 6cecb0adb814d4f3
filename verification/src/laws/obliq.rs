//! Laws of the retrieval task: its judgements and queries, what is run, and what a run comes to.

use vstd::prelude::*;

use crate::feedback::asi_feedback;
use crate::json::{lookup, member, parsed, parsed_bytes, JsonView};
use crate::laws::synthetic::trimming_removes_surrounding_space;
use crate::laws::text::{
    texts_are_cut_at_the_first_occurrence, texts_without_the_pattern_stay_whole,
};
use crate::model::{
    CandidateView, ComponentValueView, HarnessExampleView, HarnessOptErrorView,
    OptimizationRunView, Split, TraceEventView, TraceRecordView,
};
use crate::obliq::{
    examples_of, last_answer, output_of, qrel_row, qrels_of_lines, queries_of_lines, query_on_line,
    relevances_of_lines, run_file, submitted, texts_among, ObliqHarnessProjectView,
    OBLIQ_SEED_PROMPT, OBLIQ_TASK_INSTRUCTIONS_COMPONENT_ID,
};
use crate::obliq_evaluation::{obliq_start, ObliqActionView, ObliqEventView};
use crate::score::Score;
use crate::text::{decimal, is_infix, is_space, joined, occurs_at, split, trimmed};

verus! {

/// Whether a text can stand in a column: it is not empty, has no tab and no white space at its
/// ends.
pub open spec fn column(text: Seq<char>) -> bool {
    &&& text.len() > 0
    &&& !is_space(text[0])
    &&& !is_space(text.last())
    &&& forall|i: int| 0 <= i < text.len() ==> #[trigger] text[i] != '\t'
}

proof fn lemma_column(text: Seq<char>)
    requires
        column(text),
    ensures
        forall|i: int| 0 <= i < text.len() ==> !occurs_at(text + "\t"@, "\t"@, i),
        !is_infix("\t"@, text),
        trimmed(text) == text,
        "\t"@ == seq!['\t'],
{
    reveal_strlit("\t");
    let tab = "\t"@;
    assert(tab =~= seq!['\t']);
    assert forall|i: int| 0 <= i < text.len() implies !occurs_at(text + tab, tab, i) by {
        assert((text + tab).subrange(i, i + 1)[0] == text[i]);
    }
    if is_infix(tab, text) {
        let i = choose|i: int| occurs_at(text, tab, i);
        assert(text.subrange(i, i + 1)[0] == text[i]);
    }
    let empty = Seq::<char>::empty();
    trimming_removes_surrounding_space(empty, text, empty);
    assert(empty + text + empty =~= text);
}

/// A line of three columns with tabs between them names the query, the document and the relevance,
/// whatever white space stands around it; the header does not, and neither does a comment.
pub proof fn judgements_stand_in_three_columns(
    before: Seq<char>,
    query: Seq<char>,
    doc: Seq<char>,
    relevance: Seq<char>,
    after: Seq<char>,
)
    requires
        forall|i: int| 0 <= i < before.len() ==> is_space(#[trigger] before[i]),
        forall|i: int| 0 <= i < after.len() ==> is_space(#[trigger] after[i]),
        column(query),
        column(doc),
        column(relevance),
    ensures
        qrel_row(
            before + (query + seq!['\t'] + (doc + seq!['\t'] + relevance)) + after,
        ) == if query[0] == '#' || query == "query-id"@ {
            None
        } else {
            Some((query, doc, relevance))
        },
        qrel_row(before + (query + seq!['\t'] + doc) + after) is None,
        qrel_row(before + query + after) is None,
        qrel_row(before) is None,
{
    lemma_column(query);
    lemma_column(doc);
    lemma_column(relevance);
    let tab = "\t"@;
    let more = doc + tab + relevance;
    let t = query + tab + more;
    trimming_removes_surrounding_space(before, t, after);
    texts_are_cut_at_the_first_occurrence(query, tab, more, tab);
    texts_are_cut_at_the_first_occurrence(doc, tab, relevance, tab);
    texts_without_the_pattern_stay_whole(relevance, tab, tab);
    let columns = split(t, tab);
    assert(columns =~= seq![query, doc, relevance]);
    assert(t[0] == query[0]);
    let u = query + tab + doc;
    trimming_removes_surrounding_space(before, u, after);
    texts_are_cut_at_the_first_occurrence(query, tab, doc, tab);
    texts_without_the_pattern_stay_whole(doc, tab, tab);
    assert(split(u, tab) =~= seq![query, doc]);
    trimming_removes_surrounding_space(before, query, after);
    texts_without_the_pattern_stay_whole(query, tab, tab);
    let empty = Seq::<char>::empty();
    trimming_removes_surrounding_space(before, empty, empty);
    assert(before + empty + empty =~= before);
}

/// Whether a line names the relevance of a document for a query, with a number.
pub open spec fn judges(
    line: Seq<char>,
    numbers: Map<Seq<char>, Score>,
    query: Seq<char>,
    doc: Seq<char>,
) -> bool {
    qrel_row(line) matches Some(row) && row.0 == query && row.1 == doc && numbers.contains_key(
        row.2,
    )
}

/// Of the lines that judge a document for a query the last one counts.
pub proof fn the_last_judgement_counts(
    lines: Seq<Seq<char>>,
    numbers: Map<Seq<char>, Score>,
    query: Seq<char>,
    doc: Seq<char>,
    at: int,
)
    requires
        0 <= at < lines.len(),
        judges(lines[at], numbers, query, doc),
        forall|j: int|
            at < j < lines.len() ==> !judges(#[trigger] lines[j], numbers, query, doc),
    ensures
        ({
            let qrels = qrels_of_lines(lines, numbers);
            &&& qrels.contains_key(query)
            &&& qrels[query].contains_key(doc)
            &&& qrel_row(lines[at]) matches Some(row)
            &&& qrels[query][doc] == numbers[row.2]
        }),
    decreases lines.len(),
{
    if at < lines.len() - 1 {
        let before = lines.drop_last();
        assert(before[at] == lines[at]);
        assert forall|j: int| at < j < before.len() implies !judges(
            #[trigger] before[j],
            numbers,
            query,
            doc,
        ) by {
            assert(before[j] == lines[j]);
        }
        assert(!judges(lines[lines.len() - 1], numbers, query, doc));
        the_last_judgement_counts(before, numbers, query, doc, at);
    }
}

/// The relevances that are to be read as numbers are those of the lines that name one.
pub proof fn relevances_are_those_of_the_rows(lines: Seq<Seq<char>>, text: Seq<char>)
    ensures
        relevances_of_lines(lines).contains(text) <==> exists|i: int|
            0 <= i < lines.len() && (#[trigger] qrel_row(lines[i]) matches Some(row) && row.2
                == text),
    decreases lines.len(),
{
    if lines.len() > 0 {
        let before = lines.drop_last();
        relevances_are_those_of_the_rows(before, text);
        let all = relevances_of_lines(lines);
        let part = relevances_of_lines(before);
        if part.contains(text) {
            let i = choose|i: int| 0 <= i < part.len() && part[i] == text;
            assert(all[i] == text);
            let j = choose|i: int|
                0 <= i < before.len() && (#[trigger] qrel_row(before[i]) matches Some(row)
                    && row.2 == text);
            assert(qrel_row(lines[j]) is Some);
        }
        if qrel_row(lines[lines.len() - 1]) is Some {
            let row = qrel_row(lines.last())->0;
            assert(all[all.len() - 1] == row.2);
        }
        if all.contains(text) {
            let i = choose|i: int| 0 <= i < all.len() && all[i] == text;
            if i < part.len() {
                assert(part[i] == text);
            } else {
                assert(qrel_row(lines[lines.len() - 1]) is Some);
            }
        }
        if exists|i: int|
            0 <= i < lines.len() && (#[trigger] qrel_row(lines[i]) matches Some(row) && row.2
                == text) {
            let i = choose|i: int|
                0 <= i < lines.len() && (#[trigger] qrel_row(lines[i]) matches Some(row) && row.2
                    == text);
            if i < before.len() {
                assert(qrel_row(before[i]) is Some);
                assert(part.contains(text));
                let k = choose|k: int| 0 <= k < part.len() && part[k] == text;
                assert(all[k] == text);
            }
        }
    }
}

/// A line of the queries with an id and a text is that query; an empty one is none; and any other
/// is an error that names the number of the line.
pub proof fn queries_stand_one_on_a_line(
    before: Seq<char>,
    text: Seq<char>,
    after: Seq<char>,
    members: Seq<(Seq<char>, JsonView)>,
    id: Seq<char>,
    words: Seq<char>,
    line: nat,
)
    requires
        forall|i: int| 0 <= i < before.len() ==> is_space(#[trigger] before[i]),
        forall|i: int| 0 <= i < after.len() ==> is_space(#[trigger] after[i]),
        text.len() > 0 ==> !is_space(text[0]) && !is_space(text[text.len() - 1]),
    ensures
        text.len() == 0 ==> query_on_line(before + text + after, line) == Ok::<
            Option<(Seq<char>, Seq<char>)>,
            HarnessOptErrorView,
        >(None),
        text.len() > 0 && parsed(text) == Ok::<JsonView, Seq<char>>(JsonView::Object(members)) ==> {
            &&& lookup(members, "_id"@) == Some(JsonView::Text(id)) && lookup(members, "text"@)
                == Some(JsonView::Text(words)) ==> query_on_line(before + text + after, line)
                == Ok::<Option<(Seq<char>, Seq<char>)>, HarnessOptErrorView>(Some((id, words)))
            &&& lookup(members, "_id"@) is None ==> query_on_line(before + text + after, line)
                == Err::<Option<(Seq<char>, Seq<char>)>, HarnessOptErrorView>(
                HarnessOptErrorView::Harness(
                    "queries.jsonl line "@ + decimal(line) + ": missing '_id' field"@,
                ),
            )
            &&& lookup(members, "_id"@) == Some(JsonView::Text(id)) && lookup(members, "text"@)
                is None ==> query_on_line(before + text + after, line) == Err::<
                Option<(Seq<char>, Seq<char>)>,
                HarnessOptErrorView,
            >(
                HarnessOptErrorView::Harness(
                    "queries.jsonl line "@ + decimal(line) + ": missing 'text' field for id='"@
                        + id + "'"@,
                ),
            )
        },
{
    trimming_removes_surrounding_space(before, text, after);
}

/// Of the lines with one id the last one counts, where every line can be read; otherwise the first
/// line that cannot decides.
pub proof fn the_last_query_of_an_id_counts(
    lines: Seq<Seq<char>>,
    id: Seq<char>,
    words: Seq<char>,
    at: int,
)
    requires
        0 <= at < lines.len(),
    ensures
        (forall|i: int|
            0 <= i < lines.len() ==> (#[trigger] query_on_line(lines[i], (i + 1) as nat)) is Ok)
            ==> queries_of_lines(lines) is Ok,
        (forall|i: int|
            0 <= i < lines.len() ==> (#[trigger] query_on_line(lines[i], (i + 1) as nat)) is Ok)
            && query_on_line(lines[at], (at + 1) as nat) == Ok::<
            Option<(Seq<char>, Seq<char>)>,
            HarnessOptErrorView,
        >(Some((id, words))) && (forall|j: int|
            at < j < lines.len() ==> (#[trigger] query_on_line(lines[j], (j + 1) as nat) matches Ok(
                Some(other),
            ) ==> other.0 != id)) ==> queries_of_lines(lines)->Ok_0.contains_key(id)
            && queries_of_lines(lines)->Ok_0[id] == words,
        query_on_line(lines[at], (at + 1) as nat) is Err && (forall|i: int|
            0 <= i < at ==> (#[trigger] query_on_line(lines[i], (i + 1) as nat)) is Ok)
            ==> queries_of_lines(lines) == Err::<Map<Seq<char>, Seq<char>>, HarnessOptErrorView>(
            query_on_line(lines[at], (at + 1) as nat)->Err_0,
        ),
    decreases lines.len(),
{
    let before = lines.drop_last();
    let n = lines.len();
    assert forall|i: int| 0 <= i < before.len() implies #[trigger] query_on_line(
        before[i],
        (i + 1) as nat,
    ) == query_on_line(lines[i], (i + 1) as nat) by {}
    assert(query_on_line(lines[n - 1], (n - 1 + 1) as nat) == query_on_line(lines.last(), n));
    if at < n - 1 {
        the_last_query_of_an_id_counts(before, id, words, at);
    } else if n > 1 {
        the_last_query_of_an_id_counts(before, id, words, 0);
    }
    if query_on_line(lines[at], (at + 1) as nat) is Err && (forall|i: int|
        0 <= i < at ==> (#[trigger] query_on_line(lines[i], (i + 1) as nat)) is Ok) {
        if at == n - 1 {
            assert forall|i: int| 0 <= i < before.len() implies (#[trigger] query_on_line(
                before[i],
                (i + 1) as nat,
            )) is Ok by {
                assert(query_on_line(lines[i], (i + 1) as nat) is Ok);
            }
            if n == 1 {
                assert(before.len() == 0);
            }
        }
    }
}

/// The first query without a text is named, where there is one; the example of a query has its
/// text as input, and the id and the split asked for.
pub proof fn queries_without_a_text_are_named(
    ids: Seq<Seq<char>>,
    split: Split,
    queries: Map<Seq<char>, Seq<char>>,
    at: int,
)
    requires
        0 <= at < ids.len(),
        forall|i: int| 0 <= i < at ==> queries.contains_key(#[trigger] ids[i]),
    ensures
        !queries.contains_key(ids[at]) ==> examples_of(ids, split, queries) == Err::<
            Seq<HarnessExampleView>,
            HarnessOptErrorView,
        >(
            HarnessOptErrorView::Harness(
                "missing query text for '"@ + ids[at] + "' in queries.jsonl"@,
            ),
        ),
        examples_of(ids, split, queries) matches Ok(examples) ==> {
            &&& examples.len() == ids.len()
            &&& examples[at].id == ids[at]
            &&& examples[at].split == split
            &&& member(examples[at].input, "text"@) == Some(JsonView::Text(queries[ids[at]]))
            &&& examples[at].expected is None
        },
    decreases ids.len(),
{
    crate::obliq::examples_follow_ids(ids, split, queries);
    if !queries.contains_key(ids[at]) {
        lemma_missing_query(ids, split, queries, at);
    }
}

proof fn lemma_missing_query(
    ids: Seq<Seq<char>>,
    split: Split,
    queries: Map<Seq<char>, Seq<char>>,
    at: int,
)
    requires
        0 <= at < ids.len(),
        forall|i: int| 0 <= i < at ==> queries.contains_key(#[trigger] ids[i]),
        !queries.contains_key(ids[at]),
    ensures
        examples_of(ids, split, queries) == Err::<Seq<HarnessExampleView>, HarnessOptErrorView>(
            HarnessOptErrorView::Harness(
                "missing query text for '"@ + ids[at] + "' in queries.jsonl"@,
            ),
        ),
    decreases ids.len(),
{
    let before = ids.drop_last();
    if at < ids.len() - 1 {
        assert(before[at] == ids[at]);
        assert forall|i: int| 0 <= i < at implies queries.contains_key(#[trigger] before[i]) by {
            assert(before[i] == ids[i]);
        }
        lemma_missing_query(before, split, queries, at);
    } else {
        crate::obliq::examples_follow_ids(before, split, queries);
        assert forall|i: int| 0 <= i < before.len() implies queries.contains_key(
            #[trigger] before[i],
        ) by {
            assert(before[i] == ids[i]);
        }
    }
}

/// Whether an option stands in the arguments, with a value behind it.
pub open spec fn has_option(
    arguments: Seq<Seq<char>>,
    name: Seq<char>,
    value: Seq<char>,
) -> bool {
    exists|i: int|
        0 <= i < arguments.len() - 1 && #[trigger] arguments[i] == name && arguments[i + 1]
            == value
}

/// The place of an option stands in the arguments.
proof fn lemma_option(arguments: Seq<Seq<char>>, name: Seq<char>, value: Seq<char>, at: int)
    requires
        0 <= at < arguments.len() - 1,
        arguments[at] == name,
        arguments[at + 1] == value,
    ensures
        has_option(arguments, name, value),
{
}

/// A candidate is run exactly where its instructions are a text with every term that is to be
/// preserved. What is run gets the text in a file, the example, the model and the data, and writes
/// below the directory of the candidate.
pub proof fn plans_run_the_instructions_on_the_example(
    project: ObliqHarnessProjectView,
    run: OptimizationRunView,
    candidate: CandidateView,
    example: HarnessExampleView,
)
    ensures
        ({
            let id = "obliq.task_instructions"@;
            let component = candidate.mutable_components[id];
            let plan = project.plan(run, candidate, example);
            &&& plan is Ok <==> candidate.mutable_components.contains_key(id)
                && component.value is Text && forall|i: int|
                0 <= i < component.constraints.preserve_terms.len() ==> is_infix(
                    #[trigger] component.constraints.preserve_terms[i],
                    component.value->text,
                )
            &&& plan matches Err(ended) ==> {
                &&& ended.example == example
                &&& ended.result.example_id == example.id
                &&& ended.result.split == example.split
                &&& ended.result.score.bits == 0
                &&& ended.result.passed == Some(false)
                &&& ended.metric_calls == 0
            }
            &&& plan matches Ok(p) ==> {
                &&& p.instructions == component.value->text
                &&& p.arguments.len() > 0
                &&& p.arguments[0] == "run-batch"@
                &&& has_option(p.arguments, "--subsets"@, "math"@)
                &&& has_option(p.arguments, "--tasks"@, example.id)
                &&& has_option(p.arguments, "--model"@, project.model)
                &&& project.variant matches Some(variant) ==> has_option(
                    p.arguments,
                    "--variant"@,
                    variant,
                )
                &&& has_option(p.arguments, "--task-instructions-file"@, p.instructions_file)
                &&& has_option(p.arguments, "--concurrency"@, "1"@)
                &&& has_option(p.arguments, "--data-dir"@, project.data_dir)
                &&& has_option(p.arguments, "--output-dir"@, p.output_dir)
            }
        }),
{
    let id = OBLIQ_TASK_INSTRUCTIONS_COMPONENT_ID@;
    let component = candidate.mutable_components[id];
    let terms = component.constraints.preserve_terms;
    if candidate.mutable_components.contains_key(id) && component.value is Text {
        crate::engine::lemma_first_missing(terms, component.value->text);
    }
    if project.plan(run, candidate, example) is Ok {
        let p = project.plan(run, candidate, example)->Ok_0;
        let k: int = if project.variant is Some {
            9
        } else {
            7
        };
        lemma_option(p.arguments, "--subsets"@, "math"@, 1);
        lemma_option(p.arguments, "--tasks"@, example.id, 3);
        lemma_option(p.arguments, "--model"@, project.model, 5);
        if project.variant is Some {
            lemma_option(p.arguments, "--variant"@, project.variant->0, 7);
        }
        lemma_option(p.arguments, "--task-instructions-file"@, p.instructions_file, k);
        lemma_option(p.arguments, "--concurrency"@, "1"@, k + 2);
        lemma_option(p.arguments, "--data-dir"@, project.data_dir, k + 4);
        lemma_option(p.arguments, "--output-dir"@, p.output_dir, k + 6);
    }
}

/// Whether a name can stand in a path: it is not empty, and no path from the root.
pub open spec fn file_name(name: Seq<char>) -> bool {
    name.len() > 0 && name[0] != '/' && name.last() != '/'
}

/// Every candidate has a directory of its own below that of the run, and every example one below
/// that of the candidate.
pub proof fn runs_write_below_their_candidate(
    project: ObliqHarnessProjectView,
    run: OptimizationRunView,
    candidate: CandidateView,
    example: HarnessExampleView,
)
    requires
        run.run_dir.len() > 0,
        run.run_dir.last() != '/',
        file_name(candidate.id),
        file_name(example.id),
    ensures
        project.plan(run, candidate, example) matches Ok(p) ==> {
            &&& p.work_dir == run.run_dir + "/candidates/"@ + candidate.id
            &&& p.instructions_file == p.work_dir + "/obliq-instructions.txt"@
            &&& p.output_dir == p.work_dir + "/.benchmarks/obliq/runs/"@ + example.id
        },
{
    reveal_strlit("candidates");
    reveal_strlit("/candidates/");
    reveal_strlit("obliq-instructions.txt");
    reveal_strlit("/obliq-instructions.txt");
    reveal_strlit(".benchmarks");
    reveal_strlit("obliq");
    reveal_strlit("runs");
    reveal_strlit("/.benchmarks/obliq/runs/");
    if project.plan(run, candidate, example) is Ok {
        let p = project.plan(run, candidate, example)->Ok_0;
        assert(p.work_dir =~= run.run_dir + "/candidates/"@ + candidate.id);
        assert(p.work_dir.last() == candidate.id.last());
        assert(p.instructions_file =~= p.work_dir + "/obliq-instructions.txt"@);
        assert(p.output_dir =~= p.work_dir + "/.benchmarks/obliq/runs/"@ + example.id);
    }
}

/// The files of a run stand below the directory that it names, under the id of the example.
pub proof fn run_files_stand_below_the_latest(
    output_dir: Seq<char>,
    before: Seq<char>,
    latest: Seq<char>,
    after: Seq<char>,
    id: Seq<char>,
    ending: Seq<char>,
)
    requires
        output_dir.len() > 0,
        output_dir.last() != '/',
        file_name(latest),
        !is_space(latest[0]),
        !is_space(latest.last()),
        forall|i: int| 0 <= i < before.len() ==> is_space(#[trigger] before[i]),
        forall|i: int| 0 <= i < after.len() ==> is_space(#[trigger] after[i]),
        file_name(id),
    ensures
        run_file(output_dir, before + latest + after, id, ending) == output_dir + seq!['/']
            + latest + "/math/"@ + id + ending,
{
    reveal_strlit("math");
    reveal_strlit("/math/");
    trimming_removes_surrounding_space(before, latest, after);
    assert(run_file(output_dir, before + latest + after, id, ending) =~= output_dir + seq!['/']
        + latest + "/math/"@ + id + ending);
}

/// The seed has one component, the instructions of the task, which are to keep the terms of the
/// project and to stay below four thousand characters.
pub proof fn the_seed_has_the_instructions_of_the_task(
    project: ObliqHarnessProjectView,
    id: Seq<char>,
)
    ensures
        ({
            let seed = project.seed();
            let component = seed.mutable_components["obliq.task_instructions"@];
            &&& seed.id == "seed"@
            &&& seed.parent_id is None
            &&& seed.mutable_components.contains_key(id) <==> id == "obliq.task_instructions"@
            &&& component.id == "obliq.task_instructions"@
            &&& component.value == (ComponentValueView::Text { text: OBLIQ_SEED_PROMPT@ })
            &&& component.constraints.max_chars == Some(4000usize)
            &&& component.constraints.preserve_terms == project.preserve_terms
            &&& component.constraints.forbidden_terms.len() == 0
        }),
{
}

/// The texts among values are their texts, in order.
pub proof fn texts_are_picked_out(values: Seq<JsonView>)
    ensures
        texts_among(values) == values.filter(|v: JsonView| v is Text).map_values(
            |v: JsonView| v->Text_0,
        ),
    decreases values.len(),
{
    reveal(Seq::filter);
    let texts = |v: JsonView| v is Text;
    let inner = |v: JsonView| v->Text_0;
    if values.len() == 0 {
        assert(texts_among(values) =~= values.filter(texts).map_values(inner));
    } else {
        texts_are_picked_out(values.drop_last());
        assert(texts_among(values) =~= values.filter(texts).map_values(inner));
    }
}

/// A number of the pooled metrics of an output.
pub open spec fn pooled(value: JsonView, name: Seq<char>) -> Option<JsonView> {
    match member(value, "metrics"@) {
        Some(metrics) => match member(metrics, "pooled"@) {
            Some(numbers) => member(numbers, name),
            None => None,
        },
        None => None,
    }
}

/// Whether a score is the number that stands somewhere, or zero where none does.
pub open spec fn is_number_or_zero(score: Score, value: Option<JsonView>) -> bool {
    match value {
        Some(JsonView::Number(n)) => score == n.double,
        _ => score.bits == 0,
    }
}

/// The score of a run is the NDCG at ten of the pooled metrics, and beside it stand the recall at
/// ten and at a hundred; what is missing is zero. An agent has submitted exactly where there are
/// metrics that are not null.
pub proof fn outputs_are_read_from_the_pooled_metrics(value: JsonView)
    ensures
        ({
            let output = output_of(value);
            &&& is_number_or_zero(output.score, pooled(value, "ndcg_at_10"@))
            &&& is_number_or_zero(output.recall_at_10, pooled(value, "recall_at_10"@))
            &&& is_number_or_zero(output.recall_at_100, pooled(value, "recall_at_100"@))
            &&& output.gold_count == match pooled(value, "gold_count"@) {
                Some(JsonView::Number(n)) => match n.unsigned {
                    Some(count) => count,
                    None => 0,
                },
                _ => 0,
            }
            &&& output.tool_calls == match member(value, "tool_calls"@) {
                Some(JsonView::Number(n)) => match n.unsigned {
                    Some(count) => count,
                    None => 0,
                },
                _ => 0,
            }
            &&& output.ranked_doc_ids == match member(value, "ranked_doc_ids"@) {
                Some(JsonView::Array(items)) => texts_among(items),
                _ => Seq::empty(),
            }
            &&& submitted(value) <==> (member(value, "metrics"@) matches Some(metrics)
                && metrics !is Null)
        }),
{
}

/// The last answer of the model is the last that is not empty.
pub proof fn the_last_answer_that_is_not_empty_counts(records: Seq<TraceRecordView>, at: int)
    requires
        -1 <= at < records.len(),
        forall|j: int|
            at < j < records.len() ==> ((#[trigger] records[j]).event matches
                TraceEventView::LlmCallCompleted { response_text: text } ==> text.len() == 0),
    ensures
        0 <= at < records.len() ==> (records[at].event matches TraceEventView::LlmCallCompleted {
            response_text: text,
        } ==> (text.len() > 0 ==> last_answer(records) == text)),
        at < 0 ==> last_answer(records).len() == 0,
    decreases records.len(),
{
    reveal_strlit("");
    if records.len() > 0 {
        let before = records.drop_last();
        assert forall|j: int| at < j < before.len() implies ((#[trigger] before[j]).event matches
            TraceEventView::LlmCallCompleted { response_text: text } ==> text.len() == 0) by {
            assert(before[j] == records[j]);
        }
        if at < records.len() - 1 {
            assert(records[records.len() - 1] == records.last());
            the_last_answer_that_is_not_empty_counts(before, at);
        }
    }
}

/// A run that ends well goes from the command to the file that names the latest output, from there
/// to the output and its trace, and comes to the score of the output. It has passed exactly where
/// the score is greater than zero, and cost one call. Its feedback speaks of the relevances of
/// this example and of no other.
#[verifier::spinoff_prover]
#[verifier::rlimit(40)]
pub proof fn runs_come_to_the_score_of_their_output(
    project: ObliqHarnessProjectView,
    run: OptimizationRunView,
    candidate: CandidateView,
    example: HarnessExampleView,
    status: Seq<char>,
    latest: Seq<char>,
    bytes: Seq<u8>,
    value: JsonView,
    records: Seq<TraceRecordView>,
    ndcg: Seq<char>,
)
    requires
        project.plan(run, candidate, example) is Ok,
        parsed_bytes(bytes) == Ok::<JsonView, Seq<char>>(value),
    ensures
        ({
            let plan = project.plan(run, candidate, example)->Ok_0;
            let (s0, a0) = obliq_start(project, run, candidate, example);
            let (s1, a1) = s0.after(ObliqEventView::Exited { success: true, status });
            let (s2, a2) = s1.after(ObliqEventView::Latest(latest));
            let (s3, a3) = s2.after(ObliqEventView::Output(bytes));
            let (s4, a4) = s3.after(ObliqEventView::Trace { records, ndcg });
            let json = run_file(plan.output_dir, latest, example.id, ".json"@);
            let trace = run_file(plan.output_dir, latest, example.id, ".trace.jsonl"@);
            let output = output_of(value);
            let gold = if project.qrels.contains_key(example.id) {
                project.qrels[example.id]
            } else {
                Map::empty()
            };
            &&& a0 == ObliqActionView::Launch(plan)
            &&& a1 is ReadLatest
            &&& a2 == ObliqActionView::ReadOutput(json)
            &&& submitted(value) ==> {
                &&& a3 matches ObliqActionView::ReadTrace { path, score }
                &&& path == trace
                &&& score == output.score
                &&& a4 matches ObliqActionView::Finish(ended)
                &&& ended.example == example
                &&& ended.result.example_id == example.id
                &&& ended.result.split == example.split
                &&& ended.result.score == output.score
                &&& ended.result.passed == Some((Score { bits: 0 }).lt(output.score))
                &&& ended.result.feedback == Some(
                    asi_feedback(
                        records,
                        output.ranked_doc_ids,
                        gold,
                        ndcg,
                        last_answer(records),
                    ),
                )
                &&& ended.result.metrics.contains_key("recall_at_10"@)
                &&& ended.result.metrics["recall_at_10"@] == output.recall_at_10
                &&& ended.result.metrics.contains_key("recall_at_100"@)
                &&& ended.result.metrics["recall_at_100"@] == output.recall_at_100
                &&& ended.result.metrics.contains_key("gold_count"@)
                &&& ended.result.diagnostics.contains_key("turn_outcome"@)
                &&& ended.result.diagnostics["turn_outcome"@] == JsonView::Text("submitted"@)
                &&& ended.trace matches Some(bundle)
                &&& bundle.example_id == example.id
                &&& bundle.records == records
                &&& ended.artifacts.response_json == Some(json)
                &&& ended.artifacts.typed_trace_jsonl == Some(trace)
                &&& ended.metric_calls == 1
            }
            &&& !submitted(value) ==> {
                &&& a3 matches ObliqActionView::Finish(ended)
                &&& ended.example == example
                &&& ended.result.example_id == example.id
                &&& ended.result.split == example.split
                &&& ended.result.score.bits == 0
                &&& ended.result.passed == Some(false)
                &&& member(value, "errors"@) matches Some(JsonView::Array(items))
                    ==> ended.result.feedback == Some(
                    "agent did not submit a ranked list; errors: "@ + joined(
                        texts_among(items),
                        "; "@,
                    ),
                )
                &&& ended.artifacts.response_json == Some(json)
                &&& ended.metric_calls == 1
            }
        }),
        ({
            let (s0, a0) = obliq_start(project, run, candidate, example);
            let (s1, a1) = s0.after(ObliqEventView::Exited { success: false, status });
            &&& a1 matches ObliqActionView::Finish(ended)
            &&& ended.result.score.bits == 0
            &&& ended.result.passed == Some(false)
            &&& ended.result.feedback == Some("lash-oblique exited with status: "@ + status)
            &&& ended.metric_calls == 1
        }),
{
    reveal_strlit("recall_at_10");
    reveal_strlit("recall_at_100");
    reveal_strlit("gold_count");
    reveal_strlit("turn_outcome");
    reveal_strlit("tool_call_count");
    reveal_strlit("error_count");
    assert("recall_at_10"@.len() == 12 && "recall_at_100"@.len() == 13 && "gold_count"@.len()
        == 10);
    assert("turn_outcome"@.len() == 12 && "tool_call_count"@.len() == 15 && "error_count"@.len()
        == 11);
}

/// A candidate that is not run is told why: it has no instructions, or they are no text, or the
/// first of the terms that they have to contain is missing.
pub proof fn refusals_say_why(
    project: ObliqHarnessProjectView,
    run: OptimizationRunView,
    candidate: CandidateView,
    example: HarnessExampleView,
    at: int,
)
    ensures
        ({
            let id = "obliq.task_instructions"@;
            let component = candidate.mutable_components[id];
            let terms = component.constraints.preserve_terms;
            let plan = project.plan(run, candidate, example);
            &&& !candidate.mutable_components.contains_key(id) ==> plan is Err
                && plan->Err_0.result.feedback == Some(
                "missing mutable component '"@ + id + "'"@,
            )
            &&& candidate.mutable_components.contains_key(id) && component.value !is Text
                ==> plan is Err && plan->Err_0.result.feedback == Some(
                "component '"@ + id + "' must be ComponentValue::Text"@,
            )
            &&& candidate.mutable_components.contains_key(id) && component.value is Text && 0 <= at
                < terms.len() && !is_infix(terms[at], component.value->text) && (forall|i: int|
                0 <= i < at ==> is_infix(#[trigger] terms[i], component.value->text))
                ==> plan is Err && plan->Err_0.result.feedback == Some(
                "Constraint violation: missing required term '"@ + terms[at] + "'"@,
            )
        }),
{
    let component = candidate.mutable_components[OBLIQ_TASK_INSTRUCTIONS_COMPONENT_ID@];
    let terms = component.constraints.preserve_terms;
    if component.value is Text && 0 <= at < terms.len() && !is_infix(
        terms[at],
        component.value->text,
    ) && (forall|i: int| 0 <= i < at ==> is_infix(#[trigger] terms[i], component.value->text)) {
        crate::laws::candidates::lemma_missing(terms, component.value->text, at);
    }
}

} // verus!
