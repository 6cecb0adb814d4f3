//! Laws of the feedback on the runs of an agent.

use vstd::prelude::*;

use crate::feedback::{
    appended, asi_feedback, calls_by_tool, calls_of, code_of, counts_text, failed_tool, failures_of,
    first_texts, found_among, gold_among, invocation, queries_in, queries_of_code,
    queries_of_parts, query_line, quoted_texts, search_section, shown_agent_text, shown_queries,
    tool_names, tool_of_call, top_docs,
};
use crate::json::{member, JsonView};
use crate::laws::text::{
    joining_puts_the_separator_between, pieces_join_to_the_text,
    texts_are_cut_at_the_first_occurrence, texts_without_the_pattern_stay_whole,
};
use crate::model::{TraceEventView, TraceRecordView};
use crate::score::Score;
use crate::string_map::{enumerates, in_order, lemma_enumeration_unique};
use crate::text::{
    decimal, first_from, is_infix, is_space, joined, lemma_first_from, occurs_at, split,
    trimmed_start,
};

verus! {

/// Whether a record is a step of the runtime that carries code, under the names of the diagnostic
/// and its payload.
pub open spec fn carries_code(record: TraceRecordView, code: Seq<char>) -> bool {
    &&& record.event matches TraceEventView::ProtocolStep { plugin_id, payload }
    &&& plugin_id == "runtime"@
    &&& member(payload, "diagnostic"@) matches Some(diagnostic)
    &&& member(diagnostic, "payload"@) matches Some(inner)
    &&& member(inner, "code"@) == Some(JsonView::Text(code))
}

/// A tool is invoked as often as its invocation cuts the code of the records: each part of the
/// code but the first follows one. Records without code invoke nothing, and the invocations of
/// all records are added up.
pub proof fn invocations_are_counted(
    before: Seq<TraceRecordView>,
    record: TraceRecordView,
    code: Seq<char>,
    tool: Seq<char>,
)
    ensures
        carries_code(record, code) ==> calls_of(before.push(record), tool) == calls_of(
            before,
            tool,
        ) + split(code, "tools."@ + tool + "("@).len() - 1,
        record.event !is ProtocolStep ==> calls_of(before.push(record), tool) == calls_of(
            before,
            tool,
        ),
        calls_of(Seq::empty(), tool) == 0,
{
    reveal_strlit("tools.");
    let all = before.push(record);
    assert(all.drop_last() =~= before);
    pieces_join_to_the_text(code, "tools."@ + tool + "("@);
}

/// The counts are those of the four tools of an agent that were invoked.
pub proof fn invoked_tools_are_listed(records: Seq<TraceRecordView>, tool: Seq<char>)
    ensures
        calls_by_tool(records).contains_key(tool) <==> (tool == "discover_docs"@ || tool
            == "judge_candidates"@ || tool == "search"@ || tool == "tournament_rerank"@)
            && calls_of(records, tool) > 0,
        calls_by_tool(records).contains_key(tool) && calls_of(records, tool) <= usize::MAX
            ==> calls_by_tool(records)[tool] == calls_of(records, tool),
{
    let names = tool_names();
    assert(names[0] == "discover_docs"@ && names[1] == "judge_candidates"@ && names[2]
        == "search"@ && names[3] == "tournament_rerank"@);
    if names.contains(tool) {
        let i = choose|i: int| 0 <= i < names.len() && names[i] == tool;
        assert(i == 0 || i == 1 || i == 2 || i == 3);
    }
}

/// The failures of model calls are those that were caused by the call of a tool.
pub proof fn failures_name_the_tool_that_caused_them(record: TraceRecordView, id: Seq<char>)
    ensures
        record.event !is LlmCallFailed ==> failed_tool(record) is None,
        record.event is LlmCallFailed && record.context.metadata.contains_key("caused_by"@)
            && member(record.context.metadata["caused_by"@], "call_id"@) == Some(
            JsonView::Text(id),
        ) ==> failed_tool(record) == tool_of_call(id),
        !record.context.metadata.contains_key("caused_by"@) ==> failed_tool(record) is None,
{
}

/// The texts between quotes are taken one after the other, but for empty ones.
pub proof fn quoted_texts_stand_between_quotes(
    before: Seq<char>,
    text: Seq<char>,
    rest: Seq<char>,
)
    requires
        forall|i: int| 0 <= i < before.len() ==> #[trigger] before[i] != '"',
        forall|i: int| 0 <= i < text.len() ==> #[trigger] text[i] != '"',
    ensures
        quoted_texts(before + seq!['"'] + text + seq!['"'] + rest) == if text.len() > 0 {
            seq![text] + quoted_texts(rest)
        } else {
            quoted_texts(rest)
        },
        quoted_texts(before) == Seq::<Seq<char>>::empty(),
        quoted_texts(before + seq!['"'] + text) == Seq::<Seq<char>>::empty(),
{
    let quote = seq!['"'];
    let s = before + quote + text + quote + rest;
    let n = before.len() as int;
    let m = text.len() as int;
    lemma_first_char(s, '"', n);
    assert(s.skip(n + 1) =~= text + quote + rest);
    lemma_first_char(text + quote + rest, '"', m);
    assert((text + quote + rest).take(m) =~= text);
    assert((text + quote + rest).skip(m + 1) =~= rest);
    lemma_no_char(before, '"');
    let t = before + quote + text;
    lemma_first_char(t, '"', n);
    assert(t.skip(n + 1) =~= text);
    lemma_no_char(text, '"');
}

proof fn lemma_first_char(s: Seq<char>, c: char, at: int)
    requires
        0 <= at < s.len(),
        s[at] == c,
        forall|i: int| 0 <= i < at ==> #[trigger] s[i] != c,
    ensures
        first_from(s, seq![c], 0) == Some(at),
{
    lemma_first_from(s, seq![c], 0);
    assert(s.subrange(at, at + 1) =~= seq![c]);
    assert(occurs_at(s, seq![c], at));
    let i = first_from(s, seq![c], 0)->0;
    assert(s.subrange(i, i + 1)[0] == s[i]);
    assert(seq![c][0] == c);
}

proof fn lemma_no_char(s: Seq<char>, c: char)
    requires
        forall|i: int| 0 <= i < s.len() ==> #[trigger] s[i] != c,
    ensures
        first_from(s, seq![c], 0) is None,
{
    lemma_first_from(s, seq![c], 0);
    if first_from(s, seq![c], 0) is Some {
        let i = first_from(s, seq![c], 0)->0;
        assert(s.subrange(i, i + 1)[0] == s[i]);
        assert(seq![c][0] == c);
    }
}

/// The queries of a call are the texts between quotes in the array behind the first `queries:`.
pub proof fn queries_stand_in_the_array(
    before: Seq<char>,
    space: Seq<char>,
    content: Seq<char>,
    rest: Seq<char>,
)
    requires
        forall|i: int|
            0 <= i < before.len() ==> !occurs_at(before + "queries:"@, "queries:"@, i),
        forall|i: int| 0 <= i < space.len() ==> is_space(#[trigger] space[i]),
        forall|i: int| 0 <= i < content.len() ==> #[trigger] content[i] != ']',
    ensures
        queries_in(before + "queries:"@ + space + seq!['['] + content + seq![']'] + rest)
            == quoted_texts(content),
{
    reveal_strlit("queries:");
    let key = "queries:"@;
    let after = space + seq!['['] + content + seq![']'] + rest;
    let part = before + key + space + seq!['['] + content + seq![']'] + rest;
    let n = before.len() as int;
    assert(part =~= before + key + after);
    lemma_first_from(part, key, 0);
    assert(part.subrange(n, n + 8) =~= key);
    assert(occurs_at(part, key, n));
    let i = first_from(part, key, 0)->0;
    if i < n {
        assert((before + key).subrange(i, i + 8) =~= part.subrange(i, i + 8));
        assert(occurs_at(before + key, key, i));
    }
    assert(part.skip(n + 8) =~= after);
    let literal = seq!['['] + content + seq![']'] + rest;
    assert(after =~= space + literal);
    lemma_trimmed_start(space, literal);
    assert(literal.skip(1) =~= content + seq![']'] + rest);
    lemma_first_char(content + seq![']'] + rest, ']', content.len() as int);
    assert((content + seq![']'] + rest).take(content.len() as int) =~= content);
}

proof fn lemma_trimmed_start(space: Seq<char>, s: Seq<char>)
    requires
        forall|i: int| 0 <= i < space.len() ==> is_space(#[trigger] space[i]),
        s.len() > 0 ==> !is_space(s[0]),
    ensures
        trimmed_start(space + s) == s,
    decreases space.len(),
{
    if space.len() == 0 {
        assert(space + s =~= s);
    } else {
        let rest = space.drop_first();
        assert(is_space(space[0]));
        assert forall|i: int| 0 <= i < rest.len() implies is_space(#[trigger] rest[i]) by {
            assert(rest[i] == space[i + 1]);
        }
        assert((space + s).drop_first() =~= rest + s);
        lemma_trimmed_start(rest, s);
    }
}

/// The queries of code are those of its search calls one after the other: what stands before the
/// first call has none, and each call goes up to the next.
pub proof fn queries_of_code_are_those_of_its_calls(
    before: Seq<char>,
    part: Seq<char>,
    rest: Seq<char>,
)
    requires
        forall|i: int|
            0 <= i < before.len() ==> !occurs_at(
                before + "tools.search("@,
                "tools.search("@,
                i,
            ),
        forall|i: int|
            0 <= i < part.len() ==> !occurs_at(part + "tools.search("@, "tools.search("@, i),
        !is_infix("tools.search("@, part),
    ensures
        queries_of_code(part) == Seq::<Seq<char>>::empty(),
        queries_of_code(before + "tools.search("@ + part) == queries_in(part),
        queries_of_code(before + "tools.search("@ + (part + "tools.search("@ + rest))
            == queries_in(part) + queries_of_code("tools.search("@ + rest),
{
    reveal_strlit("tools.search(");
    let call = "tools.search("@;
    texts_without_the_pattern_stay_whole(part, call, call);
    assert(seq![part].drop_first() =~= Seq::<Seq<char>>::empty());
    texts_are_cut_at_the_first_occurrence(before, call, part, call);
    assert((seq![before] + seq![part]).drop_first() =~= seq![part]);
    assert(seq![part].drop_last() =~= Seq::<Seq<char>>::empty());
    assert(queries_of_parts(Seq::<Seq<char>>::empty()) =~= Seq::<Seq<char>>::empty());
    assert(seq![part].last() == part);
    assert(queries_of_parts(seq![part]) =~= queries_in(part));
    let more = part + call + rest;
    texts_are_cut_at_the_first_occurrence(before, call, more, call);
    texts_are_cut_at_the_first_occurrence(part, call, rest, call);
    let pieces = split(rest, call);
    assert((seq![before] + (seq![part] + pieces)).drop_first() =~= seq![part] + pieces);
    let nothing = Seq::<char>::empty();
    texts_are_cut_at_the_first_occurrence(nothing, call, rest, call);
    assert(nothing + call + rest =~= call + rest);
    assert((seq![nothing] + pieces).drop_first() =~= pieces);
    lemma_parts(part, pieces);
}

proof fn lemma_parts(part: Seq<char>, pieces: Seq<Seq<char>>)
    ensures
        queries_of_parts(seq![part] + pieces) == queries_in(part) + queries_of_parts(pieces),
    decreases pieces.len(),
{
    let all = seq![part] + pieces;
    if pieces.len() == 0 {
        assert(all.drop_last() =~= Seq::<Seq<char>>::empty());
        assert(pieces =~= Seq::<Seq<char>>::empty());
        assert(queries_of_parts(pieces) =~= Seq::<Seq<char>>::empty());
        assert(queries_of_parts(all.drop_last()) =~= Seq::<Seq<char>>::empty());
        assert(queries_of_parts(all) =~= queries_in(part) + queries_of_parts(pieces));
    } else {
        lemma_parts(part, pieces.drop_last());
        assert(all.drop_last() =~= seq![part] + pieces.drop_last());
        assert(queries_of_parts(all) =~= queries_in(part) + queries_of_parts(pieces));
    }
}

/// The queries of all records, one after the other.
pub open spec fn all_queries(records: Seq<TraceRecordView>) -> Seq<Seq<char>>
    decreases records.len(),
{
    if records.len() == 0 {
        Seq::empty()
    } else {
        all_queries(records.drop_last()) + match code_of(records.last()) {
            Some(code) => queries_of_code(code),
            None => Seq::empty(),
        }
    }
}

/// The queries that are shown are the first eight of all.
pub proof fn the_first_queries_are_shown(records: Seq<TraceRecordView>)
    ensures
        all_queries(records).len() <= 8 ==> shown_queries(records) == all_queries(records),
        all_queries(records).len() > 8 ==> shown_queries(records) == all_queries(records).take(8),
    decreases records.len(),
{
    if records.len() > 0 {
        let before = records.drop_last();
        the_first_queries_are_shown(before);
        let whole = all_queries(records);
        let part = all_queries(before);
        if part.len() > 8 {
            assert(whole.take(8) =~= part.take(8));
        } else if part.len() == 8 {
            assert(whole.take(8) =~= part);
            assert(whole.len() == 8 ==> whole =~= part);
        }
        assert(part + Seq::<Seq<char>>::empty() =~= part);
    }
}

/// A query is shown with its number and no more than a hundred of its characters; where there were
/// more calls than queries are shown, that is said at the end, and where there were none, only
/// that.
pub proof fn queries_are_shown_in_lines(queries: Seq<Seq<char>>, calls: nat, i: int)
    requires
        0 <= i < queries.len(),
    ensures
        queries[i].len() <= 100 ==> query_line(queries, i) == "  "@ + decimal((i + 1) as nat)
            + ". \""@ + queries[i] + "\""@,
        queries[i].len() > 100 ==> query_line(queries, i) == "  "@ + decimal((i + 1) as nat)
            + ". \""@ + queries[i].take(100) + "\""@,
        calls == 0 ==> search_section(queries, calls) == "  (none — agent made no search calls)"@,
        0 < calls <= 8 ==> search_section(queries, calls) == joined(
            Seq::new(queries.len(), |j: int| query_line(queries, j)),
            "\n"@,
        ),
        calls > 8 ==> search_section(queries, calls) == joined(
            Seq::new(queries.len(), |j: int| query_line(queries, j)),
            "\n"@,
        ) + "\n"@ + ("  ... ("@ + decimal(calls) + " total, showing first 8)"@),
{
    let shown = Seq::new(queries.len(), |j: int| query_line(queries, j));
    let end = "  ... ("@ + decimal(calls) + " total, showing first 8)"@;
    joining_puts_the_separator_between(shown, seq![end], end, "\n"@);
    assert(shown.push(end) =~= shown + seq![end]);
}

/// Names stand with their counts in the order of the names.
pub proof fn counts_are_written_in_order(counts: Map<Seq<char>, usize>, names: Seq<Seq<char>>)
    requires
        enumerates(names, counts.dom()),
    ensures
        names.len() == 1 ==> counts_text(counts) == names[0] + "×"@ + decimal(
            counts[names[0]] as nat,
        ),
        names.len() == 2 ==> counts_text(counts) == names[0] + "×"@ + decimal(
            counts[names[0]] as nat,
        ) + ", "@ + (names[1] + "×"@ + decimal(counts[names[1]] as nat)),
        counts_text(counts) == joined(
            names.map_values(|name: Seq<char>| name + "×"@ + decimal(counts[name] as nat)),
            ", "@,
        ),
{
    lemma_enumeration_unique(names, in_order(counts.dom()), counts.dom());
    let f = |name: Seq<char>| name + "×"@ + decimal(counts[name] as nat);
    let lines = Seq::new(names.len(), |i: int| names[i] + "×"@ + decimal(counts[names[i]] as nat));
    assert(names.map_values(f) =~= lines);
    if names.len() == 2 {
        joining_puts_the_separator_between(seq![lines[0]], seq![lines[1]], lines[0], ", "@);
        joining_puts_the_separator_between(seq![lines[0]], seq![lines[1]], lines[1], ", "@);
        assert(lines =~= seq![lines[0]] + seq![lines[1]]);
    }
}

/// Whether a document stands among the first so many.
pub open spec fn among_first(ids: Seq<Seq<char>>, k: nat, id: Seq<char>) -> bool {
    exists|i: int| 0 <= i < ids.len() && i < k && #[trigger] ids[i] == id
}

/// The gold documents that are found are those that stand among the first ranked ones, each
/// counted once.
pub proof fn gold_documents_are_counted_once(
    ids: Seq<Seq<char>>,
    gold: Set<Seq<char>>,
    k: nat,
    names: Seq<Seq<char>>,
)
    requires
        enumerates(names, gold),
    ensures
        gold_among(ids, gold, k) == names.filter(|id: Seq<char>| among_first(ids, k, id)).len(),
        gold_among(ids, gold, k) <= names.len(),
{
    lemma_enumeration_unique(names, in_order(gold), gold);
    lemma_found(names, ids, k);
}

proof fn lemma_found(names: Seq<Seq<char>>, ids: Seq<Seq<char>>, k: nat)
    ensures
        found_among(names, first_texts(ids, k)) == names.filter(
            |id: Seq<char>| among_first(ids, k, id),
        ).len(),
        found_among(names, first_texts(ids, k)) <= names.len(),
    decreases names.len(),
{
    reveal(Seq::filter);
    if names.len() > 0 {
        lemma_found(names.drop_last(), ids, k);
        let first = first_texts(ids, k);
        let id = names.last();
        if first.contains(id) {
            let i = choose|i: int| 0 <= i < first.len() && first[i] == id;
            assert(ids[i] == id);
            assert(among_first(ids, k, id));
        }
        if among_first(ids, k, id) {
            let i = choose|i: int| 0 <= i < ids.len() && i < k && #[trigger] ids[i] == id;
            assert(first[i] == id);
        }
    }
}

/// The first ten documents are shown, and the last text of the agent up to 300 characters.
pub proof fn documents_and_texts_are_cut(ids: Seq<Seq<char>>, text: Seq<char>)
    ensures
        ids.len() == 0 ==> top_docs(ids) == "(none submitted)"@,
        0 < ids.len() <= 10 ==> top_docs(ids) == "["@ + joined(ids, ", "@) + "]"@,
        ids.len() > 10 ==> top_docs(ids) == "["@ + joined(ids.take(10), ", "@) + "]"@,
        text.len() == 0 ==> shown_agent_text(text) == "(empty)"@,
        0 < text.len() <= 300 ==> shown_agent_text(text) == text,
        text.len() > 300 ==> shown_agent_text(text) == text.take(300) + "..."@,
{
}

/// The feedback says what the score was, which tools were invoked and which failed, what was
/// searched for, how many of the gold documents stand among the first hundred, what was submitted
/// and what the agent said last.
#[verifier::spinoff_prover]
pub proof fn feedback_says_it_all(
    records: Seq<TraceRecordView>,
    ranked: Seq<Seq<char>>,
    gold: Map<Seq<char>, Score>,
    ndcg: Seq<char>,
    text: Seq<char>,
    names: Seq<Seq<char>>,
)
    requires
        enumerates(names, gold.dom()),
    ensures
        ({
            let feedback = asi_feedback(records, ranked, gold, ndcg, text);
            let calls = calls_by_tool(records);
            let failures = failures_of(records);
            &&& is_infix("Score: NDCG@10="@ + ndcg + "\n"@, feedback)
            &&& (forall|tool: Seq<char>| !calls.contains_key(tool)) ==> is_infix(
                "\nTool calls: none — agent submitted without using retrieval tools\n"@,
                feedback,
            )
            &&& (exists|tool: Seq<char>| calls.contains_key(tool)) ==> is_infix(
                "\nTool calls: "@ + counts_text(calls) + "\n"@,
                feedback,
            )
            &&& (exists|tool: Seq<char>| failures.contains_key(tool)) ==> is_infix(
                "Tool failures (internal LLM errors): "@ + counts_text(failures) + "\n"@,
                feedback,
            )
            &&& is_infix(
                "Search queries issued:\n"@ + search_section(
                    shown_queries(records),
                    calls_of(records, "search"@),
                ) + "\nGold coverage: "@ + decimal(gold_among(ranked, gold.dom(), 100)) + "/"@
                    + decimal(names.len()) + " gold documents in top 100\nTop submitted docs: "@
                    + top_docs(ranked) + "\nFinal agent text: "@ + shown_agent_text(text),
                feedback,
            )
        }),
{
    lemma_enumeration_unique(names, in_order(gold.dom()), gold.dom());
    let feedback = asi_feedback(records, ranked, gold, ndcg, text);
    let calls = calls_by_tool(records);
    let failures = failures_of(records);
    let tools = if calls.dom() == Set::<Seq<char>>::empty() {
        "none — agent submitted without using retrieval tools"@
    } else {
        counts_text(calls)
    };
    let failed = if failures.dom() == Set::<Seq<char>>::empty() {
        ""@
    } else {
        "Tool failures (internal LLM errors): "@ + counts_text(failures) + "\n"@
    };
    let head = "Score: NDCG@10="@ + ndcg;
    let start = head + "\nTool calls: "@ + tools + "\n"@ + failed;
    let e1 = "Search queries issued:\n"@;
    let e2 = e1 + search_section(shown_queries(records), calls_of(records, "search"@));
    let e3 = e2 + "\nGold coverage: "@;
    let e4 = e3 + decimal(gold_among(ranked, gold.dom(), 100));
    let e5 = e4 + "/"@;
    let e6 = e5 + decimal(names.len());
    let e7 = e6 + " gold documents in top 100\nTop submitted docs: "@;
    let e8 = e7 + top_docs(ranked);
    let e9 = e8 + "\nFinal agent text: "@;
    let end = e9 + shown_agent_text(text);
    lemma_regrouped(
        start,
        e1,
        search_section(shown_queries(records), calls_of(records, "search"@)),
    );
    lemma_regrouped(start, e2, "\nGold coverage: "@);
    lemma_regrouped(start, e3, decimal(gold_among(ranked, gold.dom(), 100)));
    lemma_regrouped(start, e4, "/"@);
    lemma_regrouped(start, e5, decimal(names.len()));
    lemma_regrouped(start, e6, " gold documents in top 100\nTop submitted docs: "@);
    lemma_regrouped(start, e7, top_docs(ranked));
    lemma_regrouped(start, e8, "\nFinal agent text: "@);
    lemma_regrouped(start, e9, shown_agent_text(text));
    assert(feedback == start + end);
    lemma_parts_of_feedback(head, tools, failed, end);
    if forall|tool: Seq<char>| !calls.contains_key(tool) {
        assert forall|tool: Seq<char>| !calls.dom().contains(tool) by {
            assert(!calls.contains_key(tool));
        }
        assert(calls.dom() =~= Set::<Seq<char>>::empty());
    }
    if exists|tool: Seq<char>| calls.contains_key(tool) {
        let tool = choose|tool: Seq<char>| calls.contains_key(tool);
        assert(calls.dom().contains(tool));
    }
    if exists|tool: Seq<char>| failures.contains_key(tool) {
        let tool = choose|tool: Seq<char>| failures.contains_key(tool);
        assert(failures.dom().contains(tool));
    }
}

proof fn lemma_regrouped(a: Seq<char>, b: Seq<char>, c: Seq<char>)
    ensures
        a + (b + c) == a + b + c,
{
    assert(a + (b + c) =~= a + b + c);
}

proof fn lemma_parts_of_feedback(
    head: Seq<char>,
    tools: Seq<char>,
    failed: Seq<char>,
    end: Seq<char>,
)
    ensures
        ({
            let whole = head + "\nTool calls: "@ + tools + "\n"@ + failed + end;
            &&& is_infix(head + "\n"@, whole)
            &&& is_infix("\nTool calls: "@ + tools + "\n"@, whole)
            &&& is_infix(failed, whole)
            &&& is_infix(end, whole)
        }),
        "\nTool calls: "@ + "none — agent submitted without using retrieval tools"@ + "\n"@
            == "\nTool calls: none — agent submitted without using retrieval tools\n"@,
{
    reveal_strlit("\nTool calls: ");
    reveal_strlit("\nTool calls: none — agent submitted without using retrieval tools\n");
    reveal_strlit("none — agent submitted without using retrieval tools");
    reveal_strlit("\n");
    let said = "\nTool calls: "@;
    let feed = "\n"@;
    let whole = head + said + tools + feed + failed + end;
    let empty = Seq::<char>::empty();
    assert(whole.skip(head.len() as int + 1) =~= said.skip(1) + tools + feed + failed + end);
    assert(whole =~= empty + (head + feed) + whole.skip(head.len() as int + 1));
    lemma_around(empty, head + feed, whole.skip(head.len() as int + 1), whole);
    lemma_around(head, said + tools + feed, failed + end, whole);
    lemma_around(head + said + tools + feed, failed, end, whole);
    lemma_around(head + said + tools + feed + failed, end, empty, whole);
    assert(said + "none — agent submitted without using retrieval tools"@ + feed
        =~= "\nTool calls: none — agent submitted without using retrieval tools\n"@);
}

proof fn lemma_around(before: Seq<char>, part: Seq<char>, after: Seq<char>, whole: Seq<char>)
    requires
        whole =~= before + part + after,
    ensures
        is_infix(part, whole),
{
    let i = before.len() as int;
    assert(whole.subrange(i, i + part.len()) =~= part);
    assert(occurs_at(whole, part, i));
}

/// Queries are added behind those that there are, up to eight in all.
pub proof fn queries_are_added_up_to_eight(texts: Seq<Seq<char>>, more: Seq<Seq<char>>, i: int)
    ensures
        texts.len() >= 8 ==> appended(texts, more) == texts,
        texts.len() < 8 && texts.len() + more.len() <= 8 ==> appended(texts, more) == texts + more,
        texts.len() < 8 && texts.len() + more.len() > 8 ==> appended(texts, more).len() == 8,
        0 <= i < texts.len() ==> appended(texts, more)[i] == texts[i],
        texts.len() <= i < appended(texts, more).len() ==> appended(texts, more)[i] == more[i
            - texts.len()],
{
}

} // verus!
