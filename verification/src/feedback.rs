//! Feedback for the reflection model, taken from the trace of an agent and from its ranking.

use vstd::prelude::*;
use vstd::string::*;

use crate::json::{get_in, member, opt_member, str_in, text_of};
use crate::model::{entry, TraceEvent, TraceEventView, TraceRecord, TraceRecordView};
use crate::score::Score;
use crate::string_map::{in_order, StringMap};
use crate::text::{
    chars_of, count, count_matches, decimal, decimal_text, find_from, first_from, join, joined,
    lemma_first_from, matches_at, occurs_at, prefix, same_text, skip_whitespace, split, split_text,
    string_of, take_chars, trimmed_start,
};
use crate::views::{lemma_take_next, lemma_views_push, opt_view, views};

verus! {

/// How many search queries the feedback shows.
pub const SHOWN_QUERIES: usize = 8;

/// The tools that an agent may invoke, in the order of their names.
pub open spec fn tool_names() -> Seq<Seq<char>> {
    seq!["discover_docs"@, "judge_candidates"@, "search"@, "tournament_rerank"@]
}

/// What stands in the code of an agent where it invokes a tool.
pub open spec fn invocation(tool: Seq<char>) -> Seq<char> {
    "tools."@ + tool + "("@
}

/// The code that a record of the runtime carries.
pub open spec fn code_of(record: TraceRecordView) -> Option<Seq<char>> {
    match record.event {
        TraceEventView::ProtocolStep { plugin_id, payload } => if plugin_id == "runtime"@ {
            text_of(
                opt_member(
                    opt_member(member(payload, "diagnostic"@), "payload"@),
                    "code"@,
                ),
            )
        } else {
            None
        },
        _ => None,
    }
}

/// How often the code of a record invokes a tool.
pub open spec fn calls_in(record: TraceRecordView, tool: Seq<char>) -> nat {
    match code_of(record) {
        Some(code) => count(code, invocation(tool)),
        None => 0,
    }
}

/// How often the code of the records invokes a tool.
pub open spec fn calls_of(records: Seq<TraceRecordView>, tool: Seq<char>) -> nat
    decreases records.len(),
{
    if records.len() == 0 {
        0
    } else {
        calls_of(records.drop_last(), tool) + calls_in(records.last(), tool)
    }
}

/// Whether the numbers of calls stay within the machine's.
pub open spec fn countable(records: Seq<TraceRecordView>) -> bool {
    forall|i: int|
        0 <= i < tool_names().len() ==> calls_of(records, #[trigger] tool_names()[i])
            <= usize::MAX
}

/// The quoted texts of an array literal that are not empty.
pub open spec fn quoted_texts(s: Seq<char>) -> Seq<Seq<char>>
    decreases s.len(),
{
    match first_from(s, seq!['"'], 0) {
        Some(start) => {
            let rest = s.skip(start + 1);
            match first_from(rest, seq!['"'], 0) {
                Some(end) => if 0 <= start < s.len() && 0 <= end < rest.len() {
                    let after = quoted_texts(rest.skip(end + 1));
                    if end > 0 {
                        seq![rest.take(end)] + after
                    } else {
                        after
                    }
                } else {
                    Seq::empty()
                },
                None => Seq::empty(),
            }
        },
        None => Seq::empty(),
    }
}

/// The queries of the array that follows `queries:` in the text behind an invocation. The first
/// closing bracket ends the array.
pub open spec fn queries_in(part: Seq<char>) -> Seq<Seq<char>> {
    match first_from(part, "queries:"@, 0) {
        Some(at) => {
            let literal = trimmed_start(part.skip(at + 8));
            if literal.len() > 0 && literal[0] == '[' {
                let content = literal.skip(1);
                match first_from(content, seq![']'], 0) {
                    Some(end) => quoted_texts(content.take(end)),
                    None => Seq::empty(),
                }
            } else {
                Seq::empty()
            }
        },
        None => Seq::empty(),
    }
}

/// The queries of parts one after the other.
pub open spec fn queries_of_parts(parts: Seq<Seq<char>>) -> Seq<Seq<char>>
    decreases parts.len(),
{
    if parts.len() == 0 {
        Seq::empty()
    } else {
        queries_of_parts(parts.drop_last()) + queries_in(parts.last())
    }
}

/// The queries of the search calls in code.
pub open spec fn queries_of_code(code: Seq<char>) -> Seq<Seq<char>> {
    queries_of_parts(split(code, "tools.search("@).drop_first())
}

/// The first of the texts.
pub open spec fn first_texts(texts: Seq<Seq<char>>, n: nat) -> Seq<Seq<char>> {
    if texts.len() <= n {
        texts
    } else {
        texts.take(n as int)
    }
}

/// The texts with more behind them, up to as many as the feedback shows.
pub open spec fn appended(texts: Seq<Seq<char>>, more: Seq<Seq<char>>) -> Seq<Seq<char>> {
    if texts.len() >= SHOWN_QUERIES {
        texts
    } else {
        first_texts(texts + more, SHOWN_QUERIES as nat)
    }
}

/// The queries of all records that the feedback shows.
pub open spec fn shown_queries(records: Seq<TraceRecordView>) -> Seq<Seq<char>>
    decreases records.len(),
{
    if records.len() == 0 {
        Seq::empty()
    } else {
        let before = shown_queries(records.drop_last());
        match code_of(records.last()) {
            Some(code) => appended(before, queries_of_code(code)),
            None => before,
        }
    }
}

/// The id of a call of a tool.
pub open spec fn call_id(
    session: Seq<char>,
    tool: Seq<char>,
    hash: Seq<char>,
    n: Seq<char>,
) -> Seq<char> {
    "lashlang:"@ + session + ":resource:tool:"@ + tool + ":resource_operation:"@ + hash + ":"@ + n
}

/// The tool that a call id names at a place of `:resource:tool:`, where what follows it is a name
/// without a colon, `:resource_operation:`, a hash, a colon and the rest.
pub open spec fn tool_at(call_id: Seq<char>, at: int) -> Option<Seq<char>> {
    if occurs_at(call_id, ":resource:tool:"@, at) {
        match first_from(call_id, seq![':'], at + 15) {
            Some(end) => if end > at + 15 && occurs_at(call_id, ":resource_operation:"@, end)
                && first_from(call_id, seq![':'], end + 20) is Some {
                Some(call_id.subrange(at + 15, end))
            } else {
                None
            },
            None => None,
        }
    } else {
        None
    }
}

/// The tool that a call id names at the first place that is not before `start`.
pub open spec fn tool_from(call_id: Seq<char>, start: int) -> Option<Seq<char>>
    decreases call_id.len() - start,
{
    if start >= call_id.len() {
        None
    } else if tool_at(call_id, start) is Some {
        tool_at(call_id, start)
    } else {
        tool_from(call_id, start + 1)
    }
}

/// The tool that a call id names, where the id has the form of one.
pub open spec fn tool_of_call(call_id: Seq<char>) -> Option<Seq<char>> {
    if occurs_at(call_id, "lashlang:"@, 0) {
        tool_from(call_id, 9)
    } else {
        None
    }
}

proof fn lemma_tool_from(id: Seq<char>, start: int, at: int)
    requires
        start <= at < id.len(),
        tool_at(id, at) is Some,
    ensures
        tool_from(id, start) is Some,
        (forall|j: int| start <= j < at ==> tool_at(id, j) is None) ==> tool_from(id, start)
            == tool_at(id, at),
    decreases at - start,
{
    if start < at && tool_at(id, start) is None {
        lemma_tool_from(id, start + 1, at);
    }
}

proof fn lemma_tool_place(id: Seq<char>, start: int) -> (at: int)
    requires
        tool_from(id, start) is Some,
    ensures
        start <= at,
        tool_from(id, start) == tool_at(id, at),
    decreases id.len() - start,
{
    if tool_at(id, start) is Some {
        start
    } else {
        lemma_tool_place(id, start + 1)
    }
}

/// A tool is found only in what has the whole form of a call id.
pub proof fn tools_are_found_in_call_ids(id: Seq<char>)
    ensures
        tool_of_call(id) matches Some(tool) ==> tool.len() > 0 && !tool.contains(':') && exists|
            session: Seq<char>,
            hash: Seq<char>,
            n: Seq<char>,
        |
            id == #[trigger] call_id(session, tool, hash, n),
{
    if let Some(tool) = tool_of_call(id) {
        reveal_strlit("lashlang:");
        reveal_strlit(":resource:tool:");
        reveal_strlit(":resource_operation:");
        reveal_strlit(":");
        let at = lemma_tool_place(id, 9);
        lemma_first_from(id, seq![':'], at + 15);
        let end = first_from(id, seq![':'], at + 15)->0;
        lemma_first_from(id, seq![':'], end + 20);
        let colon = first_from(id, seq![':'], end + 20)->0;
        assert forall|j: int| 0 <= j < tool.len() implies tool[j] != ':' by {
            if tool[j] == ':' {
                assert(id.subrange(at + 15 + j, at + 15 + j + 1) =~= seq![':']);
                assert(occurs_at(id, seq![':'], at + 15 + j));
            }
        }
        let session = id.subrange(9, at);
        let hash = id.subrange(end + 20, colon);
        let n = id.skip(colon + 1);
        assert(id[colon] == id.subrange(colon, colon + 1)[0]);
        assert(id =~= id.subrange(0, 9) + session + id.subrange(at, at + 15) + tool
            + id.subrange(end, end + 20) + hash + seq![':'] + n);
        assert(":"@ =~= seq![':']);
        assert(id == call_id(session, tool, hash, n));
    }
}

/// In a call id a tool is found; and it is the one that the id was made of, where the id of the
/// session holds no colon.
pub proof fn call_ids_name_their_tools(
    session: Seq<char>,
    tool: Seq<char>,
    hash: Seq<char>,
    n: Seq<char>,
)
    requires
        tool.len() > 0,
        !tool.contains(':'),
    ensures
        tool_of_call(call_id(session, tool, hash, n)) is Some,
        !session.contains(':') ==> tool_of_call(call_id(session, tool, hash, n)) == Some(tool),
{
    reveal_strlit("lashlang:");
    reveal_strlit(":resource:tool:");
    reveal_strlit(":resource_operation:");
    reveal_strlit(":");
    let id = call_id(session, tool, hash, n);
    let at: int = 9 + session.len() as int;
    let end: int = at + 15 + tool.len();
    let colon: int = end + 20 + hash.len();
    assert(id.subrange(0, 9) =~= "lashlang:"@);
    assert(id.subrange(at, at + 15) =~= ":resource:tool:"@);
    assert(id.subrange(at + 15, end) =~= tool);
    assert(id.subrange(end, end + 20) =~= ":resource_operation:"@);
    assert(id.subrange(end, end + 1) =~= seq![':']);
    assert(id.subrange(colon, colon + 1) =~= seq![':']);
    assert(occurs_at(id, seq![':'], end));
    assert(occurs_at(id, seq![':'], colon));
    lemma_first_from(id, seq![':'], at + 15);
    lemma_first_from(id, seq![':'], end + 20);
    let first = first_from(id, seq![':'], at + 15)->0;
    if first < end {
        assert(id.subrange(first, first + 1)[0] == ':');
        assert(tool[first - at - 15] == ':');
        assert(tool.contains(':'));
    }
    assert(tool_at(id, at) == Some(tool));
    lemma_tool_from(id, 9, at);
    if !session.contains(':') {
        assert forall|j: int| 9 <= j < at implies tool_at(id, j) is None by {
            if occurs_at(id, ":resource:tool:"@, j) {
                assert(id.subrange(j, j + 15)[0] == ':');
                assert(session[j - 9] == ':');
                assert(session.contains(':'));
            }
        }
    }
}

/// The tool whose model call failed, according to a record.
pub open spec fn failed_tool(record: TraceRecordView) -> Option<Seq<char>> {
    if record.event is LlmCallFailed {
        match text_of(opt_member(entry(record.context.metadata, "caused_by"@), "call_id"@)) {
            Some(call_id) => tool_of_call(call_id),
            None => None,
        }
    } else {
        None
    }
}

/// How often the model calls of each tool failed.
pub open spec fn failures_of(records: Seq<TraceRecordView>) -> Map<Seq<char>, usize>
    decreases records.len(),
{
    if records.len() == 0 {
        Map::empty()
    } else {
        let before = failures_of(records.drop_last());
        match failed_tool(records.last()) {
            Some(tool) => before.insert(
                tool,
                if before.contains_key(tool) {
                    (before[tool] + 1) as usize
                } else {
                    1
                },
            ),
            None => before,
        }
    }
}

/// How often each tool was invoked, of those that were.
pub open spec fn calls_by_tool(records: Seq<TraceRecordView>) -> Map<Seq<char>, usize> {
    Map::new(
        |tool: Seq<char>| tool_names().contains(tool) && calls_of(records, tool) > 0,
        |tool: Seq<char>| calls_of(records, tool) as usize,
    )
}

/// Names with their counts.
pub open spec fn counts_text(counts: Map<Seq<char>, usize>) -> Seq<char> {
    let keys = in_order(counts.dom());
    joined(
        Seq::new(keys.len(), |i: int| keys[i] + "×"@ + decimal(counts[keys[i]] as nat)),
        ", "@,
    )
}

/// The line of a query.
pub open spec fn query_line(queries: Seq<Seq<char>>, i: int) -> Seq<char> {
    "  "@ + decimal((i + 1) as nat) + ". \""@ + prefix(queries[i], 100) + "\""@
}

/// The section of the queries. `calls` is the number of search calls.
pub open spec fn search_section(queries: Seq<Seq<char>>, calls: nat) -> Seq<char> {
    let shown = Seq::new(queries.len(), |i: int| query_line(queries, i));
    if calls == 0 {
        "  (none — agent made no search calls)"@
    } else if calls > SHOWN_QUERIES {
        joined(
            shown.push("  ... ("@ + decimal(calls) + " total, showing first 8)"@),
            "\n"@,
        )
    } else {
        joined(shown, "\n"@)
    }
}

/// How many of the keys stand among the ids.
pub open spec fn found_among(keys: Seq<Seq<char>>, ids: Seq<Seq<char>>) -> nat
    decreases keys.len(),
{
    if keys.len() == 0 {
        0
    } else {
        found_among(keys.drop_last(), ids) + if ids.contains(keys.last()) {
            1nat
        } else {
            0
        }
    }
}

/// How many of the gold documents stand among the first `k` ids. One that stands there twice is
/// found once.
pub open spec fn gold_among(ids: Seq<Seq<char>>, gold: Set<Seq<char>>, k: nat) -> nat {
    found_among(in_order(gold), first_texts(ids, k))
}

/// The first of the submitted documents.
pub open spec fn top_docs(ids: Seq<Seq<char>>) -> Seq<char> {
    if ids.len() == 0 {
        "(none submitted)"@
    } else {
        "["@ + joined(first_texts(ids, 10), ", "@) + "]"@
    }
}

/// The last text of the agent, cut after 300 characters.
pub open spec fn shown_agent_text(text: Seq<char>) -> Seq<char> {
    if text.len() == 0 {
        "(empty)"@
    } else if text.len() > 300 {
        prefix(text, 300) + "..."@
    } else {
        text
    }
}

/// The feedback on an evaluated example. `ndcg` is how the score is written.
pub open spec fn asi_feedback(
    records: Seq<TraceRecordView>,
    ranked: Seq<Seq<char>>,
    gold: Map<Seq<char>, Score>,
    ndcg: Seq<char>,
    final_agent_text: Seq<char>,
) -> Seq<char> {
    let calls = calls_by_tool(records);
    let failures = failures_of(records);
    "Score: NDCG@10="@ + ndcg + "\nTool calls: "@ + (if calls.dom() == Set::<Seq<char>>::empty() {
        "none — agent submitted without using retrieval tools"@
    } else {
        counts_text(calls)
    }) + "\n"@ + (if failures.dom() == Set::<Seq<char>>::empty() {
        ""@
    } else {
        "Tool failures (internal LLM errors): "@ + counts_text(failures) + "\n"@
    }) + "Search queries issued:\n"@ + search_section(
        shown_queries(records),
        calls_of(records, "search"@),
    ) + "\nGold coverage: "@ + decimal(gold_among(ranked, gold.dom(), 100)) + "/"@ + decimal(
        in_order(gold.dom()).len(),
    ) + " gold documents in top 100\nTop submitted docs: "@ + top_docs(ranked)
        + "\nFinal agent text: "@ + shown_agent_text(final_agent_text)
}

/// The feedback shows no more queries than it may.
pub proof fn few_queries_are_shown(records: Seq<TraceRecordView>)
    ensures
        shown_queries(records).len() <= SHOWN_QUERIES,
    decreases records.len(),
{
    if records.len() > 0 {
        few_queries_are_shown(records.drop_last());
    }
}

/// A query that was found is not empty and holds no quote.
pub proof fn queries_are_quoted_texts(s: Seq<char>)
    ensures
        forall|i: int|
            0 <= i < quoted_texts(s).len() ==> {
                &&& (#[trigger] quoted_texts(s)[i]).len() > 0
                &&& !quoted_texts(s)[i].contains('"')
            },
    decreases s.len(),
{
    if let Some(start) = first_from(s, seq!['"'], 0) {
        let rest = s.skip(start + 1);
        if let Some(end) = first_from(rest, seq!['"'], 0) {
            if 0 <= start < s.len() && 0 <= end < rest.len() {
                queries_are_quoted_texts(rest.skip(end + 1));
                lemma_first_from(rest, seq!['"'], 0);
                let first = rest.take(end);
                assert forall|j: int| 0 <= j < first.len() implies first[j] != '"' by {
                    if first[j] == '"' {
                        let quote = seq!['"'];
                        assert(rest.subrange(j, j + quote.len()) =~= quote);
                        assert(occurs_at(rest, quote, j));
                    }
                }
                let after = quoted_texts(rest.skip(end + 1));
                let all = quoted_texts(s);
                assert forall|i: int| 0 <= i < all.len() implies (#[trigger] all[i]).len() > 0
                    && !all[i].contains('"') by {
                    if end > 0 {
                        if i == 0 {
                            assert(all[0] == first);
                        } else {
                            assert(all[i] == after[i - 1]);
                        }
                    }
                }
            }
        }
    }
}

fn one_char(c: char) -> (r: Vec<char>)
    ensures
        r@ == seq![c],
{
    let mut r: Vec<char> = Vec::new();
    r.push(c);
    r
}

fn find_code(record: &TraceRecord) -> (r: Option<&String>)
    ensures
        match r {
            Some(code) => code_of(record@) == Some(code@),
            None => code_of(record@) is None,
        },
{
    match &record.event {
        TraceEvent::ProtocolStep { plugin_id, payload } => if same_text(
            plugin_id.as_str(),
            "runtime",
        ) {
            str_in(get_in(get_in(payload.get("diagnostic"), "payload"), "code"))
        } else {
            None
        },
        _ => None,
    }
}

fn invocation_of(tool: &str) -> (r: String)
    ensures
        r@ == invocation(tool@),
        r@.len() > 0,
{
    proof {
        reveal_strlit("tools.");
    }
    let mut r: String = "tools.".to_string();
    r.append(tool);
    r.append("(");
    r
}

fn count_in_record(record: &TraceRecord, tool: &str) -> (r: usize)
    ensures
        r == calls_in(record@, tool@),
{
    match find_code(record) {
        Some(code) => count_matches(code.as_str(), invocation_of(tool).as_str()),
        None => 0,
    }
}

proof fn lemma_calls_grow(records: Seq<TraceRecordView>, tool: Seq<char>, n: int)
    requires
        0 <= n <= records.len(),
    ensures
        calls_of(records.take(n), tool) <= calls_of(records, tool),
    decreases records.len() - n,
{
    if n < records.len() {
        assert(records.take(n + 1).drop_last() =~= records.take(n));
        lemma_calls_grow(records, tool, n + 1);
    } else {
        assert(records.take(n) =~= records);
    }
}

/// The number of calls of a tool, where it stays within the machine's numbers.
fn count_calls(records: &[TraceRecord], tool: &str) -> (r: Option<usize>)
    ensures
        match r {
            Some(n) => n == calls_of(views(records@), tool@),
            None => calls_of(views(records@), tool@) > usize::MAX,
        },
{
    let ghost all = views(records@);
    let mut n: usize = 0;
    let mut i: usize = 0;
    while i < records.len()
        invariant
            i <= records@.len(),
            all == views(records@),
            n == calls_of(all.take(i as int), tool@),
        decreases records@.len() - i,
    {
        proof {
            assert(all.take(i + 1).drop_last() =~= all.take(i as int));
            assert(all.take(i + 1).last() == records@[i as int]@);
            lemma_calls_grow(all, tool@, i + 1);
        }
        match n.checked_add(count_in_record(&records[i], tool)) {
            Some(m) => {
                n = m;
            },
            None => {
                return None;
            },
        }
        i = i + 1;
    }
    assert(all.take(i as int) =~= all);
    Some(n)
}

/// Whether the numbers of calls stay within the machine's.
pub fn calls_fit(records: &[TraceRecord]) -> (r: bool)
    ensures
        r == countable(views(records@)),
{
    let a: bool = count_calls(records, "discover_docs").is_some();
    let b: bool = count_calls(records, "judge_candidates").is_some();
    let c: bool = count_calls(records, "search").is_some();
    let d: bool = count_calls(records, "tournament_rerank").is_some();
    proof {
        let names = tool_names();
        assert(names[0] == "discover_docs"@);
        assert(names[1] == "judge_candidates"@);
        assert(names[2] == "search"@);
        assert(names[3] == "tournament_rerank"@);
        if countable(views(records@)) {
            assert(calls_of(views(records@), names[0]) <= usize::MAX);
            assert(calls_of(views(records@), names[1]) <= usize::MAX);
            assert(calls_of(views(records@), names[2]) <= usize::MAX);
            assert(calls_of(views(records@), names[3]) <= usize::MAX);
        }
    }
    a && b && c && d
}

fn add_calls(counts: &mut StringMap<usize>, records: &[TraceRecord], tool: &str)
    requires
        calls_of(views(records@), tool@) <= usize::MAX,
    ensures
        final(counts)@ == if calls_of(views(records@), tool@) > 0 {
            old(counts)@.insert(tool@, calls_of(views(records@), tool@) as usize)
        } else {
            old(counts)@
        },
{
    match count_calls(records, tool) {
        Some(n) => if n > 0 {
            counts.insert(tool.to_string(), n);
        },
        None => {},
    }
}

fn count_by_tool(records: &[TraceRecord]) -> (r: StringMap<usize>)
    requires
        countable(views(records@)),
    ensures
        r@ == calls_by_tool(views(records@)),
{
    let ghost all = views(records@);
    proof {
        let names = tool_names();
        assert(names[0] == "discover_docs"@ && calls_of(all, names[0]) <= usize::MAX);
        assert(names[1] == "judge_candidates"@ && calls_of(all, names[1]) <= usize::MAX);
        assert(names[2] == "search"@ && calls_of(all, names[2]) <= usize::MAX);
        assert(names[3] == "tournament_rerank"@ && calls_of(all, names[3]) <= usize::MAX);
    }
    let mut r: StringMap<usize> = StringMap::new();
    add_calls(&mut r, records, "discover_docs");
    add_calls(&mut r, records, "judge_candidates");
    add_calls(&mut r, records, "search");
    add_calls(&mut r, records, "tournament_rerank");
    proof {
        let names = tool_names();
        let target = calls_by_tool(all);
        assert forall|k: Seq<char>| names.contains(k) <==> k == "discover_docs"@ || k
            == "judge_candidates"@ || k == "search"@ || k == "tournament_rerank"@ by {
            if names.contains(k) {
                let i = choose|i: int| 0 <= i < names.len() && names[i] == k;
                assert(i == 0 || i == 1 || i == 2 || i == 3);
            }
            assert(names.contains(names[0]) && names.contains(names[1]) && names.contains(
                names[2],
            ) && names.contains(names[3]));
        }
        assert(r@ =~= target);
    }
    r
}

fn extract_quoted(s: &Vec<char>, from: usize, to: usize, out: &mut Vec<String>)
    requires
        from <= to <= s@.len(),
        old(out)@.len() <= SHOWN_QUERIES,
    ensures
        views(final(out)@) == first_texts(
            views(old(out)@) + quoted_texts(s@.subrange(from as int, to as int)),
            SHOWN_QUERIES as nat,
        ),
    decreases to - from,
{
    let ghost piece = s@.subrange(from as int, to as int);
    let ghost before = views(out@);
    let quote: Vec<char> = one_char('"');
    let text: Vec<char> = part_of(s, from, to);
    assert(text@ == piece);
    assert(before.len() == out@.len());
    proof {
        lemma_first_from(piece, seq!['"'], 0);
    }
    match find_from(&text, &quote, 0) {
        None => {
            assert(before + Seq::<Seq<char>>::empty() =~= before);
        },
        Some(start) => {
            let rest: Vec<char> = part_of(&text, start + 1, text.len());
            assert(rest@ =~= piece.skip(start + 1));
            proof {
                lemma_first_from(rest@, seq!['"'], 0);
            }
            match find_from(&rest, &quote, 0) {
                None => {
                    assert(before + Seq::<Seq<char>>::empty() =~= before);
                },
                Some(end) => {
                    let ghost after = quoted_texts(rest@.skip(end + 1));
                    let ghost found = rest@.take(end as int);
                    assert(rest@.subrange(end + 1, rest@.len() as int) =~= rest@.skip(end + 1));
                    if end > 0 && out.len() < SHOWN_QUERIES {
                        let query: String = string_of(&rest, 0, end);
                        proof {
                            assert(query@ =~= found);
                            lemma_views_push(out@, query);
                        }
                        out.push(query);
                        assert(views(out@) + after =~= before + (seq![found] + after));
                    } else if end > 0 {
                        proof {
                            let all = before + (seq![found] + after);
                            assert(all.take(SHOWN_QUERIES as int) =~= before);
                            assert(first_texts(before + after, SHOWN_QUERIES as nat) =~= before);
                        }
                    }
                    let n: usize = rest.len();
                    extract_quoted(&rest, end + 1, n, out);
                },
            }
        },
    }
}

fn part_of(s: &Vec<char>, from: usize, to: usize) -> (r: Vec<char>)
    requires
        from <= to <= s@.len(),
    ensures
        r@ == s@.subrange(from as int, to as int),
{
    let mut r: Vec<char> = Vec::new();
    let mut i: usize = from;
    while i < to
        invariant
            from <= i <= to <= s@.len(),
            r@ == s@.subrange(from as int, i as int),
        decreases to - i,
    {
        r.push(s[i]);
        assert(s@.subrange(from as int, i + 1) =~= s@.subrange(from as int, i as int).push(
            s@[i as int],
        ));
        i = i + 1;
    }
    r
}

fn extract_from_part(part: &str, out: &mut Vec<String>)
    requires
        old(out)@.len() <= SHOWN_QUERIES,
    ensures
        views(final(out)@) == first_texts(
            views(old(out)@) + queries_in(part@),
            SHOWN_QUERIES as nat,
        ),
{
    let ghost before = views(out@);
    assert(before.len() == out@.len());
    assert(before + Seq::<Seq<char>>::empty() =~= before);
    let text: Vec<char> = chars_of(part);
    let key: Vec<char> = chars_of("queries:");
    proof {
        reveal_strlit("queries:");
        lemma_first_from(text@, key@, 0);
    }
    let at: usize = match find_from(&text, &key, 0) {
        Some(at) => at,
        None => {
            return ;
        },
    };
    let n: usize = text.len();
    assert(at + 8 <= n);
    let start: usize = skip_whitespace(&text, at + 8);
    let ghost literal = text@.skip(start as int);
    if start >= text.len() || text[start] != '[' {
        return ;
    }
    let content: Vec<char> = part_of(&text, start + 1, text.len());
    assert(content@ =~= literal.skip(1));
    let close: Vec<char> = one_char(']');
    proof {
        lemma_first_from(content@, seq![']'], 0);
    }
    match find_from(&content, &close, 0) {
        Some(end) => {
            assert(content@.subrange(0, end as int) =~= content@.take(end as int));
            extract_quoted(&content, 0, end, out);
        },
        None => {},
    }
}

proof fn lemma_first_texts_again(a: Seq<Seq<char>>, b: Seq<Seq<char>>, n: nat)
    ensures
        first_texts(first_texts(a, n) + b, n) == first_texts(a + b, n),
{
    assert(first_texts(first_texts(a, n) + b, n) =~= first_texts(a + b, n));
}

/// Extracts the queries of the search calls in code, and appends them to `out` until it holds as
/// many as the feedback shows.
pub fn extract_search_queries_from_lashlang(code: &str, out: &mut Vec<String>)
    ensures
        views(final(out)@) == appended(views(old(out)@), queries_of_code(code@)),
{
    assert(views(out@).len() == out@.len());
    if out.len() >= SHOWN_QUERIES {
        return ;
    }
    proof {
        reveal_strlit("tools.search(");
    }
    let parts: Vec<String> = split_text(code, "tools.search(");
    let ghost start = views(out@);
    let ghost all = views(parts@).drop_first();
    assert(start.len() == out@.len());
    assert(views(parts@).len() == parts@.len());
    let mut i: usize = 1;
    assert(start + queries_of_parts(all.take(0)) =~= start);
    while i < parts.len()
        invariant
            1 <= i,
            i <= parts@.len() || i == 1,
            all == views(parts@).drop_first(),
            parts@.len() > 0 ==> all.len() == parts@.len() - 1,
            start == views(old(out)@),
            start.len() < SHOWN_QUERIES,
            out@.len() <= SHOWN_QUERIES,
            i <= parts@.len() ==> views(out@) == first_texts(
                start + queries_of_parts(all.take(i - 1)),
                SHOWN_QUERIES as nat,
            ),
        decreases parts@.len() - i,
    {
        let ghost earlier = queries_of_parts(all.take(i - 1));
        proof {
            assert(all.take(i as int).drop_last() =~= all.take(i - 1));
            assert(all.take(i as int).last() == parts@[i as int]@);
        }
        extract_from_part(parts[i].as_str(), out);
        proof {
            lemma_first_texts_again(
                start + earlier,
                queries_in(parts@[i as int]@),
                SHOWN_QUERIES as nat,
            );
            assert(start + earlier + queries_in(parts@[i as int]@) =~= start + (earlier
                + queries_in(parts@[i as int]@)));
            assert(views(out@).len() == out@.len());
        }
        i = i + 1;
    }
    proof {
        lemma_parts(code@, "tools.search("@);
        assert(all.take(i - 1) =~= all);
    }
}

proof fn lemma_parts(s: Seq<char>, pattern: Seq<char>)
    requires
        pattern.len() > 0,
    ensures
        split(s, pattern).len() > 0,
{
    lemma_first_from(s, pattern, 0);
}

fn find_queries(records: &[TraceRecord]) -> (r: Vec<String>)
    ensures
        views(r@) == shown_queries(views(records@)),
        r@.len() <= SHOWN_QUERIES,
{
    let ghost all = views(records@);
    let mut r: Vec<String> = Vec::new();
    let mut i: usize = 0;
    assert(views(r@) =~= shown_queries(all.take(0)));
    while i < records.len()
        invariant
            i <= records@.len(),
            all == views(records@),
            r@.len() <= SHOWN_QUERIES,
            views(r@) == shown_queries(all.take(i as int)),
        decreases records@.len() - i,
    {
        let ghost before = views(r@);
        proof {
            assert(all.take(i + 1).drop_last() =~= all.take(i as int));
            assert(all.take(i + 1).last() == records@[i as int]@);
            assert(before.len() == r@.len());
        }
        if let Some(code) = find_code(&records[i]) {
            extract_search_queries_from_lashlang(code.as_str(), &mut r);
            assert(views(r@).len() == r@.len());
        }
        i = i + 1;
    }
    assert(all.take(i as int) =~= all);
    r
}

fn find_tool_at(text: &Vec<char>, at: usize) -> (r: Option<String>)
    requires
        at < text@.len(),
    ensures
        opt_view(r) == tool_at(text@, at as int),
{
    let marker: Vec<char> = chars_of(":resource:tool:");
    let operation: Vec<char> = chars_of(":resource_operation:");
    let colon: Vec<char> = one_char(':');
    let n: usize = text.len();
    proof {
        reveal_strlit(":resource:tool:");
        reveal_strlit(":resource_operation:");
    }
    if n - at < 15 || !matches_at(text, &marker, at) {
        return None;
    }
    proof {
        lemma_first_from(text@, seq![':'], at + 15);
    }
    match find_from(text, &colon, at + 15) {
        Some(end) => {
            if end > at + 15 && n - end >= 20 && matches_at(text, &operation, end) {
                if find_from(text, &colon, end + 20).is_some() {
                    return Some(string_of(text, at + 15, end));
                }
            }
            None
        },
        None => None,
    }
}

/// The tool that a call id names. The form of a call id is
/// `lashlang:<session_id>:resource:tool:<TOOL_NAME>:resource_operation:<hash>:<n>`; in any other
/// text no tool is found.
pub fn extract_tool_from_caused_by_call_id(call_id: &str) -> (r: Option<String>)
    ensures
        opt_view(r) == tool_of_call(call_id@),
{
    let text: Vec<char> = chars_of(call_id);
    let start: Vec<char> = chars_of("lashlang:");
    let n: usize = text.len();
    proof {
        reveal_strlit("lashlang:");
    }
    if n < 9 || !matches_at(&text, &start, 0) {
        return None;
    }
    let mut i: usize = 9;
    while i < n
        invariant
            9 <= i <= n,
            n == text@.len(),
            text@ == call_id@,
            occurs_at(text@, "lashlang:"@, 0),
            tool_from(text@, 9) == tool_from(text@, i as int),
        decreases n - i,
    {
        let found: Option<String> = find_tool_at(&text, i);
        if found.is_some() {
            return found;
        }
        i = i + 1;
    }
    None
}

fn find_failed_tool(record: &TraceRecord) -> (r: Option<String>)
    ensures
        opt_view(r) == failed_tool(record@),
{
    match &record.event {
        TraceEvent::LlmCallFailed => match str_in(
            get_in(record.context.metadata.get("caused_by"), "call_id"),
        ) {
            Some(call_id) => extract_tool_from_caused_by_call_id(call_id.as_str()),
            None => None,
        },
        _ => None,
    }
}

proof fn lemma_failures_bounded(records: Seq<TraceRecordView>, tool: Seq<char>)
    requires
        records.len() <= usize::MAX,
    ensures
        failures_of(records).contains_key(tool) ==> failures_of(records)[tool] <= records.len(),
    decreases records.len(),
{
    if records.len() > 0 {
        lemma_failures_bounded(records.drop_last(), tool);
    }
}

fn count_failures(records: &[TraceRecord]) -> (r: StringMap<usize>)
    ensures
        r@ == failures_of(views(records@)),
{
    let ghost all = views(records@);
    let n: usize = records.len();
    let mut r: StringMap<usize> = StringMap::new();
    let mut i: usize = 0;
    while i < n
        invariant
            i <= n,
            n == records@.len(),
            all == views(records@),
            r@ == failures_of(all.take(i as int)),
        decreases n - i,
    {
        proof {
            assert(all.take(i + 1).drop_last() =~= all.take(i as int));
            assert(all.take(i + 1).last() == records@[i as int]@);
        }
        if let Some(tool) = find_failed_tool(&records[i]) {
            proof {
                lemma_failures_bounded(all.take(i as int), tool@);
            }
            let next: usize = match r.get(tool.as_str()) {
                Some(m) => *m + 1,
                None => 1,
            };
            r.insert(tool, next);
        }
        i = i + 1;
    }
    assert(all.take(i as int) =~= all);
    r
}

/// Every failure of a tool is counted, and nothing else.
pub proof fn failures_are_counted(records: Seq<TraceRecordView>, tool: Seq<char>)
    requires
        records.len() <= usize::MAX,
    ensures
        entry(failures_of(records), tool) == {
            let n = records.filter(|r: TraceRecordView| failed_tool(r) == Some(tool)).len();
            if n == 0 {
                None
            } else {
                Some(n as usize)
            }
        },
    decreases records.len(),
{
    let named = |r: TraceRecordView| failed_tool(r) == Some(tool);
    reveal(Seq::filter);
    if records.len() > 0 {
        failures_are_counted(records.drop_last(), tool);
        lemma_failures_bounded(records.drop_last(), tool);
    }
}

fn render_counts(counts: &StringMap<usize>) -> (r: String)
    ensures
        r@ == counts_text(counts@),
{
    let n: usize = counts.len();
    let ghost keys = in_order(counts@.dom());
    let ghost whole = Seq::new(
        keys.len(),
        |i: int| keys[i] + "×"@ + decimal(counts@[keys[i]] as nat),
    );
    let mut pieces: Vec<String> = Vec::new();
    let mut i: usize = 0;
    assert(views(pieces@) =~= whole.take(0));
    while i < n
        invariant
            i <= n,
            n == keys.len(),
            keys == in_order(counts@.dom()),
            whole == Seq::new(
                keys.len(),
                |i: int| keys[i] + "×"@ + decimal(counts@[keys[i]] as nat),
            ),
            views(pieces@) == whole.take(i as int),
        decreases n - i,
    {
        let mut piece: String = counts.key_at(i).clone();
        piece.append("×");
        piece.append(decimal_text(*counts.value_at(i) as u64).as_str());
        proof {
            lemma_views_push(pieces@, piece);
            lemma_take_next(whole, i as int);
        }
        pieces.push(piece);
        i = i + 1;
    }
    assert(whole.take(n as int) =~= whole);
    join(&pieces, ", ")
}

fn render_search_section(queries: &Vec<String>, calls: usize) -> (r: String)
    ensures
        r@ == search_section(views(queries@), calls as nat),
{
    if calls == 0 {
        return "  (none — agent made no search calls)".to_string();
    }
    let n: usize = queries.len();
    let ghost all = views(queries@);
    let ghost shown = Seq::new(all.len(), |i: int| query_line(all, i));
    let mut pieces: Vec<String> = Vec::new();
    let mut i: usize = 0;
    assert(views(pieces@) =~= shown.take(0));
    while i < n
        invariant
            i <= n,
            n == queries@.len(),
            all == views(queries@),
            shown == Seq::new(all.len(), |i: int| query_line(all, i)),
            views(pieces@) == shown.take(i as int),
        decreases n - i,
    {
        let mut piece: String = "  ".to_string();
        piece.append(decimal_text((i + 1) as u64).as_str());
        piece.append(". \"");
        piece.append(take_chars(queries[i].as_str(), 100).as_str());
        piece.append("\"");
        proof {
            lemma_views_push(pieces@, piece);
            lemma_take_next(shown, i as int);
        }
        pieces.push(piece);
        i = i + 1;
    }
    assert(shown.take(n as int) =~= shown);
    if calls > SHOWN_QUERIES {
        let mut piece: String = "  ... (".to_string();
        piece.append(decimal_text(calls as u64).as_str());
        piece.append(" total, showing first 8)");
        proof {
            lemma_views_push(pieces@, piece);
        }
        pieces.push(piece);
    }
    join(&pieces, "\n")
}

fn stands_among(ids: &[String], n: usize, key: &String) -> (r: bool)
    ensures
        r == first_texts(views(ids@), n as nat).contains(key@),
{
    let ghost top = first_texts(views(ids@), n as nat);
    let len: usize = ids.len();
    let mut i: usize = 0;
    while i < n && i < len
        invariant
            len == ids@.len(),
            i <= top.len(),
            top == first_texts(views(ids@), n as nat),
            forall|j: int| 0 <= j < i ==> top[j] != key@,
        decreases len - i,
    {
        assert(top[i as int] == ids@[i as int]@);
        if ids[i] == *key {
            return true;
        }
        i = i + 1;
    }
    false
}

/// How many of the gold documents stand among the first `k` ranked.
pub fn gold_found(ranked_ids: &[String], gold: &StringMap<Score>, k: usize) -> (r: usize)
    ensures
        r == gold_among(views(ranked_ids@), gold@.dom(), k as nat),
        r <= in_order(gold@.dom()).len(),
{
    let ghost keys = in_order(gold@.dom());
    let ghost top = first_texts(views(ranked_ids@), k as nat);
    let n: usize = gold.len();
    let mut found: usize = 0;
    let mut i: usize = 0;
    while i < n
        invariant
            i <= n,
            n == keys.len(),
            keys == in_order(gold@.dom()),
            top == first_texts(views(ranked_ids@), k as nat),
            found <= i,
            found == found_among(keys.take(i as int), top),
        decreases n - i,
    {
        assert(keys.take(i + 1).drop_last() =~= keys.take(i as int));
        if stands_among(ranked_ids, k, gold.key_at(i)) {
            found = found + 1;
        }
        i = i + 1;
    }
    assert(keys.take(n as int) =~= keys);
    found
}

fn render_top_docs(ranked: &[String]) -> (r: String)
    ensures
        r@ == top_docs(views(ranked@)),
{
    let ghost all = views(ranked@);
    assert(all.len() == ranked@.len());
    if ranked.len() == 0 {
        return "(none submitted)".to_string();
    }
    let n: usize = if ranked.len() < 10 {
        ranked.len()
    } else {
        10
    };
    let mut top: Vec<String> = Vec::new();
    let mut i: usize = 0;
    assert(views(top@) =~= all.take(0));
    while i < n
        invariant
            i <= n <= ranked@.len(),
            all == views(ranked@),
            views(top@) == all.take(i as int),
        decreases n - i,
    {
        let id: String = ranked[i].clone();
        proof {
            lemma_views_push(top@, id);
            lemma_take_next(all, i as int);
        }
        top.push(id);
        i = i + 1;
    }
    assert(all.take(n as int) =~= first_texts(all, 10));
    let mut r: String = "[".to_string();
    r.append(join(&top, ", ").as_str());
    r.append("]");
    r
}

fn render_agent_text(text: &str) -> (r: String)
    ensures
        r@ == shown_agent_text(text@),
{
    let n: usize = text.unicode_len();
    if n == 0 {
        "(empty)".to_string()
    } else if n > 300 {
        let mut r: String = take_chars(text, 300);
        r.append("...");
        r
    } else {
        text.to_string()
    }
}

/// Builds the feedback on an evaluated example: which tools the agent invoked, what it searched
/// for, and how many gold documents it found. `ndcg` is how the score is written.
pub fn build_asi_feedback(
    trace_records: &[TraceRecord],
    ranked_doc_ids: &[String],
    gold: &StringMap<Score>,
    ndcg: &str,
    final_agent_text: &str,
) -> (r: String)
    requires
        countable(views(trace_records@)),
    ensures
        r@ == asi_feedback(
            views(trace_records@),
            views(ranked_doc_ids@),
            gold@,
            ndcg@,
            final_agent_text@,
        ),
{
    let ghost all = views(trace_records@);
    let calls: StringMap<usize> = count_by_tool(trace_records);
    let failures: StringMap<usize> = count_failures(trace_records);
    let queries: Vec<String> = find_queries(trace_records);
    proof {
        assert(tool_names()[2] == "search"@);
        assert(calls_of(all, tool_names()[2]) <= usize::MAX);
        assert(tool_names().contains("search"@));
    }
    let searches: usize = match calls.get("search") {
        Some(n) => *n,
        None => 0,
    };
    let mut r: String = "Score: NDCG@10=".to_string();
    r.append(ndcg);
    r.append("\nTool calls: ");
    if calls.is_empty() {
        r.append("none — agent submitted without using retrieval tools");
    } else {
        r.append(render_counts(&calls).as_str());
    }
    r.append("\n");
    if failures.is_empty() {
        r.append("");
    } else {
        let mut line: String = "Tool failures (internal LLM errors): ".to_string();
        line.append(render_counts(&failures).as_str());
        line.append("\n");
        r.append(line.as_str());
    }
    r.append("Search queries issued:\n");
    r.append(render_search_section(&queries, searches).as_str());
    r.append("\nGold coverage: ");
    r.append(decimal_text(gold_found(ranked_doc_ids, gold, 100) as u64).as_str());
    r.append("/");
    r.append(decimal_text(gold.len() as u64).as_str());
    r.append(" gold documents in top 100\nTop submitted docs: ");
    r.append(render_top_docs(ranked_doc_ids).as_str());
    r.append("\nFinal agent text: ");
    r.append(render_agent_text(final_agent_text).as_str());
    r
}

} // verus!
