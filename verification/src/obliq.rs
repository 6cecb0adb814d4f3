//! The project that optimizes the instructions of a retrieval agent on the `math` subset of
//! OBLIQ-Bench.
//!
//! Every evaluation runs `lash-oblique run-batch` for one candidate and one example. The score is
//! read from the JSON file that the run leaves, and the feedback is made from its trace.

use vstd::prelude::*;
use vstd::string::*;

use crate::engine::{concat3, first_missing, missing_term, outcome};
use crate::feedback::{
    asi_feedback, build_asi_feedback, countable, first_texts, found_among, gold_among, gold_found,
};
use crate::json::{
    double_of, get_in, items_of, json_view, member, member_views, opt_member, parse_json,
    parsed, str_in, text_of, unsigned_number, unsigned_of, Json,
    JsonView,
};
use crate::model::{
    no_artifacts, Candidate, CandidateView, ComponentConstraints, ComponentConstraintsView,
    ComponentValue, ComponentValueView, EvaluationResult, EvaluationResultView, ExampleRun,
    ExampleRunView, HarnessExample, HarnessExampleView, HarnessOptError, HarnessOptErrorView,
    MutableComponent, MutableComponentView, OptimizationRun, OptimizationRunView, RunArtifacts,
    RunArtifactsView, Split, TraceBundle, TraceBundleView, TraceEvent, TraceEventView, TraceRecord,
    TraceRecordView,
};
use crate::score::{nearest_double, Score};
use crate::string_map::{enumerates, in_order, lemma_enumeration_unique, StringMap};
use crate::text::{
    decimal, decimal_text, join, join_path, joined, lines, path_join, same_text, split, split_text,
    text_lines, trim, trimmed,
};
use crate::views::{duplicate_all, lemma_views_push, opt_view, views, Duplicate};

verus! {

/// The id of the component that holds the instructions.
pub const OBLIQ_TASK_INSTRUCTIONS_COMPONENT_ID: &'static str = "obliq.task_instructions";

/// The instructions that the optimization starts with.
pub const OBLIQ_SEED_PROMPT: &'static str =
    "# Task
Find documents that share the same abstract relationship, structure, or latent pattern as the query, even when surface topics or vocabulary differ.

Use multiple independent search angles to build a broad candidate pool. Calibrate relevance before finalising the ranking.

# Tools
- `search` — retrieve candidates by keyword, semantic, or hybrid query (pass 2–6 independent query strings per call)
- `discover_docs` — find similar documents given positive/negative example pairs (use after finding at least one likely positive)
- `judge_candidates` — assess 10–50 candidate document IDs against a verifier predicate; returns likely positives, distractors, and refined queries
- `tournament_rerank` — merge all candidate pools into a final ranked list (call once, with all pools, at the end)

# Workflow
1. Formulate a verifier predicate: what property must a relevant document demonstrate?
2. Search from several independent angles. Keep each result set as a separate pool.
3. Sample 20–50 candidate IDs across pools and call `judge_candidates` to identify likely positives.
4. Optionally use `discover_docs` if you have clear positive/negative text examples.
5. Build `candidate_pools` from all retrieval calls and call `tournament_rerank` once to produce the final ranking.";

/// The project.
#[derive(Clone, Debug, PartialEq)]
pub struct ObliqHarnessProject {
    /// Absolute path to the `lash-oblique` binary.
    pub lash_oblique_bin: String,
    /// Absolute path to the source directory of `lash-oblique`, in which the binary is run so that
    /// it finds its scripts.
    pub lash_oblique_dir: String,
    /// Root directory of the relevance judgements and the queries.
    pub data_dir: String,
    /// The model that the agent uses.
    pub model: String,
    /// The variant of the model.
    pub variant: Option<String>,
    /// The relevance of documents, by query and document.
    pub qrels: StringMap<StringMap<Score>>,
    /// The texts of the queries, by id.
    pub queries: StringMap<String>,
    /// Terms that the instructions of every candidate have to contain.
    pub preserve_terms: Vec<String>,
}

/// The view of an [`ObliqHarnessProject`].
#[verifier::ext_equal]
pub struct ObliqHarnessProjectView {
    pub lash_oblique_bin: Seq<char>,
    pub lash_oblique_dir: Seq<char>,
    pub data_dir: Seq<char>,
    pub model: Seq<char>,
    pub variant: Option<Seq<char>>,
    pub qrels: Map<Seq<char>, Map<Seq<char>, Score>>,
    pub queries: Map<Seq<char>, Seq<char>>,
    pub preserve_terms: Seq<Seq<char>>,
}

impl View for ObliqHarnessProject {
    type V = ObliqHarnessProjectView;

    open spec fn view(&self) -> ObliqHarnessProjectView {
        ObliqHarnessProjectView {
            lash_oblique_bin: self.lash_oblique_bin@,
            lash_oblique_dir: self.lash_oblique_dir@,
            data_dir: self.data_dir@,
            model: self.model@,
            variant: opt_view(self.variant),
            qrels: self.qrels@,
            queries: self.queries@,
            preserve_terms: views(self.preserve_terms@),
        }
    }
}

/// What an evaluation writes and runs.
#[derive(Clone, Debug, PartialEq)]
pub struct EvaluationPlan {
    pub instructions: String,
    pub work_dir: String,
    pub instructions_file: String,
    pub output_dir: String,
    pub arguments: Vec<String>,
}

/// The view of an [`EvaluationPlan`].
#[verifier::ext_equal]
pub struct EvaluationPlanView {
    pub instructions: Seq<char>,
    pub work_dir: Seq<char>,
    pub instructions_file: Seq<char>,
    pub output_dir: Seq<char>,
    pub arguments: Seq<Seq<char>>,
}

impl View for EvaluationPlan {
    type V = EvaluationPlanView;

    open spec fn view(&self) -> EvaluationPlanView {
        EvaluationPlanView {
            instructions: self.instructions@,
            work_dir: self.work_dir@,
            instructions_file: self.instructions_file@,
            output_dir: self.output_dir@,
            arguments: views(self.arguments@),
        }
    }
}

impl Duplicate for EvaluationPlan {
    fn duplicate(&self) -> (r: Self) {
        EvaluationPlan {
            instructions: self.instructions.clone(),
            work_dir: self.work_dir.clone(),
            instructions_file: self.instructions_file.clone(),
            output_dir: self.output_dir.clone(),
            arguments: duplicate_all(self.arguments.as_slice()),
        }
    }
}

/// What the agent submitted, and how it was scored.
#[derive(Clone, Debug, PartialEq)]
pub struct RunOutput {
    pub score: Score,
    pub recall_at_10: Score,
    pub recall_at_100: Score,
    pub gold_count: u64,
    pub tool_calls: u64,
    pub errors_count: usize,
    pub ranked_doc_ids: Vec<String>,
}

/// The view of a [`RunOutput`].
#[verifier::ext_equal]
pub struct RunOutputView {
    pub score: Score,
    pub recall_at_10: Score,
    pub recall_at_100: Score,
    pub gold_count: u64,
    pub tool_calls: u64,
    pub errors_count: usize,
    pub ranked_doc_ids: Seq<Seq<char>>,
}

impl View for RunOutput {
    type V = RunOutputView;

    open spec fn view(&self) -> RunOutputView {
        RunOutputView {
            score: self.score,
            recall_at_10: self.recall_at_10,
            recall_at_100: self.recall_at_100,
            gold_count: self.gold_count,
            tool_calls: self.tool_calls,
            errors_count: self.errors_count,
            ranked_doc_ids: views(self.ranked_doc_ids@),
        }
    }
}

/// The ids of the queries to train on.
pub open spec fn train_query_ids() -> Seq<Seq<char>> {
    seq![
        "q02193"@,
        "q01486"@,
        "q01066"@,
        "q02834"@,
        "q01757"@,
        "q02979"@,
        "q01298"@,
    ]
}

/// The ids of the queries to validate on.
pub open spec fn val_query_ids() -> Seq<Seq<char>> {
    seq!["q00844"@, "q00847"@, "q01488"@]
}

/// The ids of the queries to train on.
pub fn train_ids() -> (r: Vec<String>)
    ensures
        views(r@) == train_query_ids(),
{
    let mut r: Vec<String> = Vec::new();
    r.push("q02193".to_string());
    r.push("q01486".to_string());
    r.push("q01066".to_string());
    r.push("q02834".to_string());
    r.push("q01757".to_string());
    r.push("q02979".to_string());
    r.push("q01298".to_string());
    assert(views(r@) =~= train_query_ids());
    r
}

/// The ids of the queries to validate on.
pub fn val_ids() -> (r: Vec<String>)
    ensures
        views(r@) == val_query_ids(),
{
    let mut r: Vec<String> = Vec::new();
    r.push("q00844".to_string());
    r.push("q00847".to_string());
    r.push("q01488".to_string());
    assert(views(r@) =~= val_query_ids());
    r
}

/// The path of the `lash-oblique` binary: below the build directory that is set, or below that of
/// the sources.
pub fn detect_lash_oblique_bin(target_dir: &Option<String>, lash_oblique_dir: &str) -> (r: String)
    ensures
        r@ == path_join(
            path_join(
                match opt_view(*target_dir) {
                    Some(dir) => dir,
                    None => path_join(lash_oblique_dir@, "target"@),
                },
                "release"@,
            ),
            "lash-oblique"@,
        ),
{
    let base: String = match target_dir {
        Some(dir) => dir.clone(),
        None => join_path(lash_oblique_dir, "target"),
    };
    join_path(join_path(base.as_str(), "release").as_str(), "lash-oblique")
}

/// The query, the document and the relevance that a line of relevance judgements names. Empty
/// lines, comments, the header and lines with fewer than three columns name none.
pub open spec fn qrel_row(line: Seq<char>) -> Option<(Seq<char>, Seq<char>, Seq<char>)> {
    let t = trimmed(line);
    let columns = split(t, "\t"@);
    if t.len() == 0 || t[0] == '#' || columns.len() < 3 {
        None
    } else {
        let query = trimmed(columns[0]);
        if query == "query-id"@ {
            None
        } else {
            Some((query, trimmed(columns[1]), trimmed(columns[2])))
        }
    }
}

/// The relevances by document that a query has so far.
pub open spec fn docs_of(
    qrels: Map<Seq<char>, Map<Seq<char>, Score>>,
    query: Seq<char>,
) -> Map<Seq<char>, Score> {
    if qrels.contains_key(query) {
        qrels[query]
    } else {
        Map::empty()
    }
}

/// The relevance judgements of lines, by query and document. `numbers` holds the texts that are
/// numbers, with their values; lines whose relevance is no number are passed over.
pub open spec fn qrels_of_lines(
    lines: Seq<Seq<char>>,
    numbers: Map<Seq<char>, Score>,
) -> Map<Seq<char>, Map<Seq<char>, Score>>
    decreases lines.len(),
{
    if lines.len() == 0 {
        Map::empty()
    } else {
        let before = qrels_of_lines(lines.drop_last(), numbers);
        match qrel_row(lines.last()) {
            Some((query, doc, relevance)) => if numbers.contains_key(relevance) {
                before.insert(query, docs_of(before, query).insert(doc, numbers[relevance]))
            } else {
                before
            },
            None => before,
        }
    }
}

/// The header of relevance judgements is no query, and every query and document is named by a line
/// with a number.
pub proof fn qrels_come_from_rows(
    lines: Seq<Seq<char>>,
    numbers: Map<Seq<char>, Score>,
    query: Seq<char>,
    doc: Seq<char>,
)
    requires
        qrels_of_lines(lines, numbers).contains_key(query),
        qrels_of_lines(lines, numbers)[query].contains_key(doc),
    ensures
        query != "query-id"@,
        exists|i: int|
            0 <= i < lines.len() && (#[trigger] qrel_row(lines[i]) matches Some(row) && row.0
                == query && row.1 == doc && numbers.contains_key(row.2)),
    decreases lines.len(),
{
    let before = qrels_of_lines(lines.drop_last(), numbers);
    let last = qrel_row(lines.last());
    let here = last matches Some(row) && row.0 == query && row.1 == doc && numbers.contains_key(
        row.2,
    );
    if here {
        assert(qrel_row(lines[lines.len() - 1]) == last);
    } else {
        qrels_come_from_rows(lines.drop_last(), numbers, query, doc);
        let i = choose|i: int|
            0 <= i < lines.drop_last().len() && (#[trigger] qrel_row(
                lines.drop_last()[i],
            ) matches Some(row) && row.0 == query && row.1 == doc && numbers.contains_key(
                row.2,
            ));
        assert(lines.drop_last()[i] == lines[i]);
    }
}

fn parse_row(line: &str) -> (r: Option<(String, String, String)>)
    ensures
        match r {
            Some(row) => qrel_row(line@) == Some((row.0@, row.1@, row.2@)),
            None => qrel_row(line@) is None,
        },
{
    proof {
        reveal_strlit("\t");
    }
    let t: String = trim(line);
    if t.as_str().unicode_len() == 0 || t.as_str().get_char(0) == '#' {
        return None;
    }
    let columns: Vec<String> = split_text(t.as_str(), "\t");
    assert(views(columns@).len() == columns@.len());
    if columns.len() < 3 {
        return None;
    }
    let query: String = trim(columns[0].as_str());
    if same_text(query.as_str(), "query-id") {
        return None;
    }
    Some((query, trim(columns[1].as_str()), trim(columns[2].as_str())))
}

/// The relevances that the lines name, as they are written.
pub open spec fn relevances_of_lines(lines: Seq<Seq<char>>) -> Seq<Seq<char>>
    decreases lines.len(),
{
    if lines.len() == 0 {
        Seq::empty()
    } else {
        let before = relevances_of_lines(lines.drop_last());
        match qrel_row(lines.last()) {
            Some((query, doc, relevance)) => before.push(relevance),
            None => before,
        }
    }
}

/// The relevances that relevance judgements name, as they are written.
pub fn relevance_texts(content: &str) -> (r: Vec<String>)
    ensures
        views(r@) == relevances_of_lines(text_lines(content@)),
{
    let all_lines: Vec<String> = lines(content);
    let ghost all = views(all_lines@);
    let mut r: Vec<String> = Vec::new();
    let mut i: usize = 0;
    assert(views(r@) =~= relevances_of_lines(all.take(0)));
    while i < all_lines.len()
        invariant
            i <= all_lines@.len(),
            all == views(all_lines@),
            views(r@) == relevances_of_lines(all.take(i as int)),
        decreases all_lines@.len() - i,
    {
        proof {
            assert(all.take(i + 1).drop_last() =~= all.take(i as int));
            assert(all.take(i + 1).last() == all_lines@[i as int]@);
        }
        if let Some((_, _, relevance)) = parse_row(all_lines[i].as_str()) {
            proof {
                lemma_views_push(r@, relevance);
            }
            r.push(relevance);
        }
        i = i + 1;
    }
    assert(all.take(i as int) =~= all);
    r
}

/// Parses relevance judgements: lines of a query, a document and a relevance between tabs.
/// `numbers` holds the texts that are numbers, with their values.
pub fn parse_qrels_tsv(content: &str, numbers: &StringMap<Score>) -> (r: StringMap<
    StringMap<Score>,
>)
    ensures
        r@ == qrels_of_lines(text_lines(content@), numbers@),
{
    let all_lines: Vec<String> = lines(content);
    let ghost all = views(all_lines@);
    let mut r: StringMap<StringMap<Score>> = StringMap::new();
    let mut i: usize = 0;
    while i < all_lines.len()
        invariant
            i <= all_lines@.len(),
            all == views(all_lines@),
            r@ == qrels_of_lines(all.take(i as int), numbers@),
        decreases all_lines@.len() - i,
    {
        proof {
            assert(all.take(i + 1).drop_last() =~= all.take(i as int));
            assert(all.take(i + 1).last() == all_lines@[i as int]@);
        }
        if let Some((query, doc, relevance)) = parse_row(all_lines[i].as_str()) {
            if let Some(number) = numbers.get(relevance.as_str()) {
                let ghost before = r@;
                let mut docs: StringMap<Score> = match r.remove(query.as_str()) {
                    Some(docs) => docs,
                    None => StringMap::new(),
                };
                docs.insert(doc, *number);
                r.insert(query, docs);
                assert(r@ =~= before.insert(query@, r@[query@]));
            }
        }
        i = i + 1;
    }
    assert(all.take(i as int) =~= all);
    r
}

/// The share of the gold documents that were found: how many of how many.
pub struct Coverage {
    pub found: usize,
    pub total: usize,
}

/// The share of the gold documents that stand among the first `k` ranked. No more are found than
/// there are.
pub fn gold_coverage(ranked_ids: &[String], gold: &StringMap<Score>, k: usize) -> (r: Coverage)
    ensures
        r.found == gold_among(views(ranked_ids@), gold@.dom(), k as nat),
        r.total == in_order(gold@.dom()).len(),
        r.found <= r.total,
{
    Coverage { found: gold_found(ranked_ids, gold, k), total: gold.len() }
}

/// Without gold documents, and without ranked ones, none are found.
pub proof fn nothing_covers_nothing(ids: Seq<Seq<char>>, gold: Set<Seq<char>>, k: nat)
    requires
        ids.len() == 0 || gold == Set::<Seq<char>>::empty(),
    ensures
        gold_among(ids, gold, k) == 0,
{
    if ids.len() == 0 {
        lemma_found_in_nothing(in_order(gold), first_texts(ids, k));
    } else {
        let none = Seq::<Seq<char>>::empty();
        assert(enumerates(none, gold));
        lemma_enumeration_unique(none, in_order(gold), gold);
    }
}

proof fn lemma_found_in_nothing(keys: Seq<Seq<char>>, ids: Seq<Seq<char>>)
    requires
        ids.len() == 0,
    ensures
        found_among(keys, ids) == 0,
    decreases keys.len(),
{
    if keys.len() > 0 {
        lemma_found_in_nothing(keys.drop_last(), ids);
    }
}

/// The id and the text of a query, of the record on line `line` of the queries.
pub open spec fn query_of(record: JsonView, line: nat) -> Result<
    (Seq<char>, Seq<char>),
    HarnessOptErrorView,
> {
    match text_of(member(record, "_id"@)) {
        None => Err(
            HarnessOptErrorView::Harness(
                "queries.jsonl line "@ + decimal(line) + ": missing '_id' field"@,
            ),
        ),
        Some(id) => match text_of(member(record, "text"@)) {
            None => Err(
                HarnessOptErrorView::Harness(
                    "queries.jsonl line "@ + decimal(line) + ": missing 'text' field for id='"@
                        + id + "'"@,
                ),
            ),
            Some(text) => Ok((id, text)),
        },
    }
}

/// What line `line` of the queries holds: nothing, a query, or something that is none.
pub open spec fn query_on_line(text: Seq<char>, line: nat) -> Result<
    Option<(Seq<char>, Seq<char>)>,
    HarnessOptErrorView,
> {
    let t = trimmed(text);
    if t.len() == 0 {
        Ok(None)
    } else {
        match parsed(t) {
            Err(message) => Err(
                HarnessOptErrorView::Harness(
                    "parse queries.jsonl line "@ + decimal(line) + ": "@ + message,
                ),
            ),
            Ok(record) => match query_of(record, line) {
                Err(error) => Err(error),
                Ok(query) => Ok(Some(query)),
            },
        }
    }
}

/// The queries of lines, by id, or the error of the first line that is none.
pub open spec fn queries_of_lines(lines: Seq<Seq<char>>) -> Result<
    Map<Seq<char>, Seq<char>>,
    HarnessOptErrorView,
>
    decreases lines.len(),
{
    if lines.len() == 0 {
        Ok(Map::empty())
    } else {
        match queries_of_lines(lines.drop_last()) {
            Err(error) => Err(error),
            Ok(before) => match query_on_line(lines.last(), lines.len()) {
                Err(error) => Err(error),
                Ok(None) => Ok(before),
                Ok(Some((id, text))) => Ok(before.insert(id, text)),
            },
        }
    }
}

/// Takes the id and the text of a query out of the record on line `line`.
pub fn query_of_record(record: &Json, line: usize) -> (r: Result<
    (String, String),
    HarnessOptError,
>)
    ensures
        match r {
            Ok(query) => query_of(record@, line as nat) == Ok::<_, HarnessOptErrorView>(
                (query.0@, query.1@),
            ),
            Err(error) => query_of(record@, line as nat) == Err::<(Seq<char>, Seq<char>), _>(
                error@,
            ),
        },
{
    let id: String = match str_in(record.get("_id")) {
        Some(id) => id.clone(),
        None => {
            return Err(
                HarnessOptError::Harness(
                    concat3(
                        "queries.jsonl line ",
                        decimal_text(line as u64).as_str(),
                        ": missing '_id' field",
                    ),
                ),
            );
        },
    };
    match str_in(record.get("text")) {
        Some(text) => Ok((id, text.clone())),
        None => {
            let mut message: String = concat3(
                "queries.jsonl line ",
                decimal_text(line as u64).as_str(),
                ": missing 'text' field for id='",
            );
            message.append(id.as_str());
            message.append("'");
            Err(HarnessOptError::Harness(message))
        },
    }
}

fn parse_query_line(text: &str, line: usize) -> (r: Result<
    Option<(String, String)>,
    HarnessOptError,
>)
    ensures
        match r {
            Ok(None) => query_on_line(text@, line as nat) == Ok::<
                Option<(Seq<char>, Seq<char>)>,
                HarnessOptErrorView,
            >(None),
            Ok(Some(query)) => query_on_line(text@, line as nat) == Ok::<
                Option<(Seq<char>, Seq<char>)>,
                HarnessOptErrorView,
            >(Some((query.0@, query.1@))),
            Err(error) => query_on_line(text@, line as nat) == Err::<
                Option<(Seq<char>, Seq<char>)>,
                HarnessOptErrorView,
            >(error@),
        },
{
    let t: String = trim(text);
    if t.as_str().unicode_len() == 0 {
        return Ok(None);
    }
    match parse_json(t.as_str()) {
        Err(message) => {
            let mut text: String = concat3(
                "parse queries.jsonl line ",
                decimal_text(line as u64).as_str(),
                ": ",
            );
            text.append(message.as_str());
            Err(HarnessOptError::Harness(text))
        },
        Ok(record) => match query_of_record(&record, line) {
            Err(error) => Err(error),
            Ok(query) => Ok(Some(query)),
        },
    }
}

proof fn lemma_query_error_stays(lines: Seq<Seq<char>>, n: int)
    requires
        0 <= n <= lines.len(),
        queries_of_lines(lines.take(n)) is Err,
    ensures
        queries_of_lines(lines) == queries_of_lines(lines.take(n)),
    decreases lines.len() - n,
{
    if n < lines.len() {
        assert(lines.take(n + 1).drop_last() =~= lines.take(n));
        lemma_query_error_stays(lines, n + 1);
    } else {
        assert(lines.take(n) =~= lines);
    }
}

/// Reads queries, of which each stands on a line of its own as a JSON object.
pub fn load_queries(content: &str) -> (r: Result<StringMap<String>, HarnessOptError>)
    ensures
        outcome(r) == queries_of_lines(text_lines(content@)),
{
    let all_lines: Vec<String> = lines(content);
    let ghost all = views(all_lines@);
    let n: usize = all_lines.len();
    let mut queries: StringMap<String> = StringMap::new();
    let mut i: usize = 0;
    while i < n
        invariant
            i <= n,
            n == all_lines@.len(),
            all == views(all_lines@),
            all == text_lines(content@),
            queries_of_lines(all.take(i as int)) == Ok::<
                Map<Seq<char>, Seq<char>>,
                HarnessOptErrorView,
            >(queries@),
        decreases n - i,
    {
        proof {
            assert(all.take(i + 1).drop_last() =~= all.take(i as int));
            assert(all.take(i + 1).last() == all_lines@[i as int]@);
        }
        match parse_query_line(all_lines[i].as_str(), i + 1) {
            Ok(Some((id, text))) => {
                queries.insert(id, text);
            },
            Ok(None) => {},
            Err(error) => {
                proof {
                    lemma_query_error_stays(all, i + 1);
                }
                return Err(error);
            },
        }
        i = i + 1;
    }
    assert(all.take(i as int) =~= all);
    Ok(queries)
}

/// The path of the file of queries.
pub fn queries_path(data_dir: &str) -> (r: String)
    ensures
        r@ == path_join(path_join(data_dir@, "math"@), "queries.jsonl"@),
{
    join_path(join_path(data_dir, "math").as_str(), "queries.jsonl")
}

/// The path of the pooled relevance judgements.
pub fn pool_qrels_path(data_dir: &str) -> (r: String)
    ensures
        r@ == path_join(path_join(data_dir@, "math"@), "qrels_pool.tsv"@),
{
    join_path(join_path(data_dir, "math").as_str(), "qrels_pool.tsv")
}

/// The path of the relevance judgements that are used: the pooled ones where there is such a file
/// and it is not empty. `pool_size` is the size of that file, where it exists.
pub fn qrels_path(data_dir: &str, pool_size: Option<u64>) -> (r: String)
    ensures
        r@ == path_join(
            path_join(data_dir@, "math"@),
            if pool_size is Some && pool_size->0 > 0 {
                "qrels_pool.tsv"@
            } else {
                "qrels.tsv"@
            },
        ),
{
    let base: String = join_path(data_dir, "math");
    match pool_size {
        Some(n) => if n > 0 {
            join_path(base.as_str(), "qrels_pool.tsv")
        } else {
            join_path(base.as_str(), "qrels.tsv")
        },
        None => join_path(base.as_str(), "qrels.tsv"),
    }
}

/// The error of a file that could not be read.
pub fn read_error(path: &str, error: &str) -> (r: HarnessOptError)
    ensures
        r@ == HarnessOptErrorView::Harness("read "@ + path@ + ": "@ + error@),
{
    let mut text: String = concat3("read ", path, ": ");
    text.append(error);
    HarnessOptError::Harness(text)
}

/// The example of a query.
pub open spec fn query_example(
    id: Seq<char>,
    split: Split,
    text: Seq<char>,
) -> HarnessExampleView {
    HarnessExampleView {
        id,
        split,
        input: JsonView::Object(seq![("text"@, JsonView::Text(text))]),
        expected: None,
        metadata: map!["subset"@ => JsonView::Text("math"@)],
    }
}

/// The examples of queries, or the error of the first query that has no text.
pub open spec fn examples_of(
    ids: Seq<Seq<char>>,
    split: Split,
    queries: Map<Seq<char>, Seq<char>>,
) -> Result<Seq<HarnessExampleView>, HarnessOptErrorView>
    decreases ids.len(),
{
    if ids.len() == 0 {
        Ok(Seq::empty())
    } else {
        match examples_of(ids.drop_last(), split, queries) {
            Err(error) => Err(error),
            Ok(before) => if queries.contains_key(ids.last()) {
                Ok(before.push(query_example(ids.last(), split, queries[ids.last()])))
            } else {
                Err(
                    HarnessOptErrorView::Harness(
                        "missing query text for '"@ + ids.last() + "' in queries.jsonl"@,
                    ),
                )
            },
        }
    }
}

/// The examples are those of the queries asked for, in their order.
pub proof fn examples_follow_ids(
    ids: Seq<Seq<char>>,
    split: Split,
    queries: Map<Seq<char>, Seq<char>>,
)
    ensures
        examples_of(ids, split, queries) is Ok <==> forall|i: int|
            0 <= i < ids.len() ==> queries.contains_key(#[trigger] ids[i]),
        examples_of(ids, split, queries) is Ok ==> {
            let examples = examples_of(ids, split, queries)->Ok_0;
            &&& examples.len() == ids.len()
            &&& forall|i: int|
                0 <= i < ids.len() ==> #[trigger] examples[i] == query_example(
                    ids[i],
                    split,
                    queries[ids[i]],
                )
        },
    decreases ids.len(),
{
    if ids.len() > 0 {
        let shorter = ids.drop_last();
        examples_follow_ids(shorter, split, queries);
        assert(forall|i: int| 0 <= i < shorter.len() ==> shorter[i] == ids[i]);
        if forall|i: int| 0 <= i < ids.len() ==> queries.contains_key(#[trigger] ids[i]) {
            assert forall|i: int| 0 <= i < shorter.len() implies queries.contains_key(
                #[trigger] shorter[i],
            ) by {
                assert(shorter[i] == ids[i]);
            }
            assert(queries.contains_key(ids[ids.len() - 1]));
        }
        if examples_of(ids, split, queries) is Ok {
            assert forall|i: int| 0 <= i < ids.len() implies queries.contains_key(
                #[trigger] ids[i],
            ) by {
                if i < shorter.len() {
                    assert(queries.contains_key(shorter[i]));
                }
            }
        }
    }
}

fn example_of_query(id: &String, split: Split, text: &String) -> (r: HarnessExample)
    ensures
        r@ == query_example(id@, split, text@),
{
    let mut members: Vec<(String, Json)> = Vec::new();
    members.push(("text".to_string(), Json::text(text.as_str())));
    assert(member_views(members@) =~= seq![("text"@, JsonView::Text(text@))]);
    let mut metadata: StringMap<Json> = StringMap::new();
    metadata.insert("subset".to_string(), Json::text("math"));
    assert(metadata@ =~= map!["subset"@ => JsonView::Text("math"@)]);
    HarnessExample {
        id: id.clone(),
        split,
        input: Json::object(members),
        expected: None,
        metadata,
    }
}

/// Makes the examples of queries.
pub fn build_examples(ids: &[String], split: Split, queries: &StringMap<String>) -> (r: Result<
    Vec<HarnessExample>,
    HarnessOptError,
>)
    ensures
        match r {
            Ok(examples) => examples_of(views(ids@), split, queries@) == Ok::<
                _,
                HarnessOptErrorView,
            >(views(examples@)),
            Err(error) => examples_of(views(ids@), split, queries@) == Err::<
                Seq<HarnessExampleView>,
                _,
            >(error@),
        },
{
    let ghost all = views(ids@);
    let mut r: Vec<HarnessExample> = Vec::new();
    let mut i: usize = 0;
    assert(views(r@) =~= Seq::empty());
    while i < ids.len()
        invariant
            i <= ids@.len(),
            all == views(ids@),
            examples_of(all.take(i as int), split, queries@) == Ok::<_, HarnessOptErrorView>(
                views(r@),
            ),
        decreases ids@.len() - i,
    {
        proof {
            assert(all.take(i + 1).drop_last() =~= all.take(i as int));
            assert(all.take(i + 1).last() == ids@[i as int]@);
        }
        match queries.get(ids[i].as_str()) {
            Some(text) => {
                let example: HarnessExample = example_of_query(&ids[i], split, text);
                proof {
                    lemma_views_push(r@, example);
                }
                r.push(example);
            },
            None => {
                proof {
                    lemma_example_error_stays(all, split, queries@, i + 1);
                }
                return Err(
                    HarnessOptError::Harness(
                        concat3(
                            "missing query text for '",
                            ids[i].as_str(),
                            "' in queries.jsonl",
                        ),
                    ),
                );
            },
        }
        i = i + 1;
    }
    assert(all.take(i as int) =~= all);
    Ok(r)
}

proof fn lemma_example_error_stays(
    ids: Seq<Seq<char>>,
    split: Split,
    queries: Map<Seq<char>, Seq<char>>,
    n: int,
)
    requires
        0 <= n <= ids.len(),
        examples_of(ids.take(n), split, queries) is Err,
    ensures
        examples_of(ids, split, queries) == examples_of(ids.take(n), split, queries),
    decreases ids.len() - n,
{
    if n < ids.len() {
        assert(ids.take(n + 1).drop_last() =~= ids.take(n));
        lemma_example_error_stays(ids, split, queries, n + 1);
    } else {
        assert(ids.take(n) =~= ids);
    }
}

/// A run that failed: its feedback says why.
pub open spec fn failed_run(
    example: HarnessExampleView,
    feedback: Seq<char>,
    metric_calls: u64,
) -> ExampleRunView {
    ExampleRunView {
        example,
        result: EvaluationResultView {
            example_id: example.id,
            split: example.split,
            score: Score { bits: 0 },
            passed: Some(false),
            feedback: Some(feedback),
            metrics: Map::empty(),
            diagnostics: diagnostics_of("error"@, 0, 1),
        },
        trace: None,
        artifacts: no_artifacts(),
        metric_calls,
    }
}

/// The diagnostics of a run.
pub open spec fn diagnostics_of(ending: Seq<char>, tool_calls: nat, errors: nat) -> Map<
    Seq<char>,
    JsonView,
> {
    map![
        "turn_outcome"@ => JsonView::Text(ending),
        "tool_call_count"@ => unsigned_number(tool_calls),
        "error_count"@ => unsigned_number(errors),
    ]
}

fn build_diagnostics(ending: &str, tool_calls: u64, errors: u64) -> (r: StringMap<Json>)
    ensures
        r@ == diagnostics_of(ending@, tool_calls as nat, errors as nat),
{
    let mut r: StringMap<Json> = StringMap::new();
    r.insert("turn_outcome".to_string(), Json::text(ending));
    r.insert("tool_call_count".to_string(), Json::unsigned(tool_calls));
    r.insert("error_count".to_string(), Json::unsigned(errors));
    assert(r@ =~= diagnostics_of(ending@, tool_calls as nat, errors as nat));
    r
}

/// Makes a run that failed.
pub fn failure_run(example: &HarnessExample, feedback: String, metric_calls: u64) -> (r: ExampleRun)
    ensures
        r@ == failed_run(example@, feedback@, metric_calls),
{
    ExampleRun {
        example: example.duplicate(),
        result: EvaluationResult {
            example_id: example.id.clone(),
            split: example.split,
            score: Score::zero(),
            passed: Some(false),
            feedback: Some(feedback),
            metrics: StringMap::new(),
            diagnostics: build_diagnostics("error", 0, 1),
        },
        trace: None,
        artifacts: RunArtifacts::default(),
        metric_calls,
    }
}

/// The run of a candidate whose instructions lack a term that they have to contain.
pub open spec fn violating_run(example: HarnessExampleView, term: Seq<char>) -> ExampleRunView {
    ExampleRunView {
        example,
        result: EvaluationResultView {
            example_id: example.id,
            split: example.split,
            score: Score { bits: 0 },
            passed: Some(false),
            feedback: Some("Constraint violation: missing required term '"@ + term + "'"@),
            metrics: Map::empty(),
            diagnostics: map!["violated_term"@ => JsonView::Text(term)],
        },
        trace: None,
        artifacts: no_artifacts(),
        metric_calls: 0,
    }
}

fn violation_run(example: &HarnessExample, term: &str) -> (r: ExampleRun)
    ensures
        r@ == violating_run(example@, term@),
{
    let mut diagnostics: StringMap<Json> = StringMap::new();
    diagnostics.insert("violated_term".to_string(), Json::text(term));
    assert(diagnostics@ =~= map!["violated_term"@ => JsonView::Text(term@)]);
    ExampleRun {
        example: example.duplicate(),
        result: EvaluationResult {
            example_id: example.id.clone(),
            split: example.split,
            score: Score::zero(),
            passed: Some(false),
            feedback: Some(
                concat3("Constraint violation: missing required term '", term, "'"),
            ),
            metrics: StringMap::new(),
            diagnostics,
        },
        trace: None,
        artifacts: RunArtifacts::default(),
        metric_calls: 0,
    }
}

impl ObliqHarnessProjectView {
    /// The candidate that the optimization starts with.
    pub open spec fn seed(self) -> CandidateView {
        let component = MutableComponentView {
            id: OBLIQ_TASK_INSTRUCTIONS_COMPONENT_ID@,
            description: Some(
                "Retrieval strategy instructions injected via --task-instructions-file"@,
            ),
            value: ComponentValueView::Text { text: OBLIQ_SEED_PROMPT@ },
            constraints: ComponentConstraintsView {
                max_chars: Some(4000),
                preserve_terms: self.preserve_terms,
                forbidden_terms: Seq::empty(),
                format_hint: Some("Markdown retrieval strategy instructions"@),
            },
        };
        CandidateView {
            id: "seed"@,
            parent_id: None,
            mutable_components: map![OBLIQ_TASK_INSTRUCTIONS_COMPONENT_ID@ => component],
            immutable_context: Map::empty(),
            metadata: map!["project"@ => JsonView::Text("obliq-math"@)],
        }
    }

    /// The directory of a candidate.
    pub open spec fn work_dir(
        self,
        run: OptimizationRunView,
        candidate: CandidateView,
    ) -> Seq<char> {
        path_join(path_join(run.run_dir, "candidates"@), candidate.id)
    }

    /// The directory that the run of a candidate on an example writes to.
    pub open spec fn output_dir(
        self,
        run: OptimizationRunView,
        candidate: CandidateView,
        example: HarnessExampleView,
    ) -> Seq<char> {
        path_join(
            path_join(
                path_join(path_join(self.work_dir(run, candidate), ".benchmarks"@), "obliq"@),
                "runs"@,
            ),
            example.id,
        )
    }

    /// The arguments of the command that runs a candidate on an example.
    pub open spec fn arguments(
        self,
        run: OptimizationRunView,
        candidate: CandidateView,
        example: HarnessExampleView,
    ) -> Seq<Seq<char>> {
        let variant: Seq<Seq<char>> = match self.variant {
            Some(v) => seq!["--variant"@, v],
            None => Seq::empty(),
        };
        seq![
            "run-batch"@,
            "--subsets"@,
            "math"@,
            "--tasks"@,
            example.id,
            "--model"@,
            self.model,
        ] + variant + seq![
            "--task-instructions-file"@,
            path_join(self.work_dir(run, candidate), "obliq-instructions.txt"@),
            "--concurrency"@,
            "1"@,
            "--data-dir"@,
            self.data_dir,
            "--output-dir"@,
            self.output_dir(run, candidate, example),
        ]
    }

    /// What the evaluation of a candidate on an example writes and runs, or the run with which it
    /// ends at once: the candidate has no instructions, or they are no text, or they lack a term
    /// that they have to contain.
    pub open spec fn plan(
        self,
        run: OptimizationRunView,
        candidate: CandidateView,
        example: HarnessExampleView,
    ) -> Result<EvaluationPlanView, ExampleRunView> {
        let id = OBLIQ_TASK_INSTRUCTIONS_COMPONENT_ID@;
        if !candidate.mutable_components.contains_key(id) {
            Err(failed_run(example, "missing mutable component '"@ + id + "'"@, 0))
        } else {
            let component = candidate.mutable_components[id];
            match component.value {
                ComponentValueView::Text { text } => match first_missing(
                    component.constraints.preserve_terms,
                    text,
                ) {
                    Some(term) => Err(violating_run(example, term)),
                    None => Ok(
                        EvaluationPlanView {
                            instructions: text,
                            work_dir: self.work_dir(run, candidate),
                            instructions_file: path_join(
                                self.work_dir(run, candidate),
                                "obliq-instructions.txt"@,
                            ),
                            output_dir: self.output_dir(run, candidate, example),
                            arguments: self.arguments(run, candidate, example),
                        },
                    ),
                },
                _ => Err(
                    failed_run(
                        example,
                        "component '"@ + id + "' must be ComponentValue::Text"@,
                        0,
                    ),
                ),
            }
        }
    }
}

impl ObliqHarnessProject {
    /// The project with the given queries and relevance judgements. `numbers` holds the texts of
    /// the relevance judgements that are numbers, with their values.
    pub fn new(
        lash_oblique_bin: String,
        lash_oblique_dir: String,
        data_dir: String,
        model: String,
        variant: Option<String>,
        preserve_terms: Vec<String>,
        queries_content: &str,
        qrels_content: &str,
        numbers: &StringMap<Score>,
    ) -> (r: Result<ObliqHarnessProject, HarnessOptError>)
        ensures
            outcome(r) == match queries_of_lines(text_lines(queries_content@)) {
                Err(error) => Err::<ObliqHarnessProjectView, HarnessOptErrorView>(error),
                Ok(queries) => Ok(
                    ObliqHarnessProjectView {
                        lash_oblique_bin: lash_oblique_bin@,
                        lash_oblique_dir: lash_oblique_dir@,
                        data_dir: data_dir@,
                        model: model@,
                        variant: opt_view(variant),
                        qrels: qrels_of_lines(text_lines(qrels_content@), numbers@),
                        queries,
                        preserve_terms: views(preserve_terms@),
                    },
                ),
            },
    {
        let queries: StringMap<String> = match load_queries(queries_content) {
            Ok(queries) => queries,
            Err(error) => {
                return Err(error);
            },
        };
        let qrels: StringMap<StringMap<Score>> = parse_qrels_tsv(qrels_content, numbers);
        Ok(
            ObliqHarnessProject {
                lash_oblique_bin,
                lash_oblique_dir,
                data_dir,
                model,
                variant,
                qrels,
                queries,
                preserve_terms,
            },
        )
    }

    /// The candidate that the optimization starts with.
    pub fn seed_candidate(&self) -> (r: Candidate)
        ensures
            r@ == self@.seed(),
    {
        let component = MutableComponent {
            id: OBLIQ_TASK_INSTRUCTIONS_COMPONENT_ID.to_string(),
            description: Some(
                "Retrieval strategy instructions injected via --task-instructions-file".to_string(),
            ),
            value: ComponentValue::Text { text: OBLIQ_SEED_PROMPT.to_string() },
            constraints: ComponentConstraints {
                max_chars: Some(4000),
                preserve_terms: duplicate_all(self.preserve_terms.as_slice()),
                forbidden_terms: Vec::new(),
                format_hint: Some("Markdown retrieval strategy instructions".to_string()),
            },
        };
        assert(views(component.constraints.forbidden_terms@) =~= Seq::empty());
        let mut mutable_components: StringMap<MutableComponent> = StringMap::new();
        mutable_components.insert(
            OBLIQ_TASK_INSTRUCTIONS_COMPONENT_ID.to_string(),
            component,
        );
        let mut metadata: StringMap<Json> = StringMap::new();
        metadata.insert("project".to_string(), Json::text("obliq-math"));
        let r = Candidate {
            id: "seed".to_string(),
            parent_id: None,
            mutable_components,
            immutable_context: StringMap::new(),
            metadata,
        };
        assert(r@ =~= self@.seed());
        r
    }

    /// The examples to train on.
    pub fn trainset(&self) -> (r: Result<Vec<HarnessExample>, HarnessOptError>)
        ensures
            match r {
                Ok(examples) => examples_of(train_query_ids(), Split::Train, self@.queries)
                    == Ok::<_, HarnessOptErrorView>(views(examples@)),
                Err(error) => examples_of(train_query_ids(), Split::Train, self@.queries) == Err::<
                    Seq<HarnessExampleView>,
                    _,
                >(error@),
            },
    {
        build_examples(train_ids().as_slice(), Split::Train, &self.queries)
    }

    /// The examples to validate on.
    pub fn valset(&self) -> (r: Result<Vec<HarnessExample>, HarnessOptError>)
        ensures
            match r {
                Ok(examples) => examples_of(val_query_ids(), Split::Val, self@.queries) == Ok::<
                    _,
                    HarnessOptErrorView,
                >(views(examples@)),
                Err(error) => examples_of(val_query_ids(), Split::Val, self@.queries) == Err::<
                    Seq<HarnessExampleView>,
                    _,
                >(error@),
            },
    {
        build_examples(val_ids().as_slice(), Split::Val, &self.queries)
    }

    fn arguments(
        &self,
        example: &HarnessExample,
        instructions_file: &String,
        output_dir: &String,
    ) -> (r: Vec<String>)
        ensures
            views(r@) == seq![
                "run-batch"@,
                "--subsets"@,
                "math"@,
                "--tasks"@,
                example@.id,
                "--model"@,
                self@.model,
            ] + (match self@.variant {
                Some(v) => seq!["--variant"@, v],
                None => Seq::empty(),
            }) + seq![
                "--task-instructions-file"@,
                instructions_file@,
                "--concurrency"@,
                "1"@,
                "--data-dir"@,
                self@.data_dir,
                "--output-dir"@,
                output_dir@,
            ],
    {
        let mut r: Vec<String> = Vec::new();
        r.push("run-batch".to_string());
        r.push("--subsets".to_string());
        r.push("math".to_string());
        r.push("--tasks".to_string());
        r.push(example.id.clone());
        r.push("--model".to_string());
        r.push(self.model.clone());
        if let Some(variant) = &self.variant {
            r.push("--variant".to_string());
            r.push(variant.clone());
        }
        r.push("--task-instructions-file".to_string());
        r.push(instructions_file.clone());
        r.push("--concurrency".to_string());
        r.push("1".to_string());
        r.push("--data-dir".to_string());
        r.push(self.data_dir.clone());
        r.push("--output-dir".to_string());
        r.push(output_dir.clone());
        proof {
            let variant: Seq<Seq<char>> = match self@.variant {
                Some(v) => seq!["--variant"@, v],
                None => Seq::empty(),
            };
            assert(views(r@) =~= seq![
                "run-batch"@,
                "--subsets"@,
                "math"@,
                "--tasks"@,
                example@.id,
                "--model"@,
                self@.model,
            ] + variant + seq![
                "--task-instructions-file"@,
                instructions_file@,
                "--concurrency"@,
                "1"@,
                "--data-dir"@,
                self@.data_dir,
                "--output-dir"@,
                output_dir@,
            ]);
        }
        r
    }

    /// Plans the evaluation of a candidate on an example, or ends it at once.
    pub fn plan_evaluation(
        &self,
        run: &OptimizationRun,
        candidate: &Candidate,
        example: &HarnessExample,
    ) -> (r: Result<EvaluationPlan, ExampleRun>)
        ensures
            match r {
                Ok(plan) => self@.plan(run@, candidate@, example@) == Ok::<_, ExampleRunView>(
                    plan@,
                ),
                Err(ended) => self@.plan(run@, candidate@, example@) == Err::<
                    EvaluationPlanView,
                    _,
                >(ended@),
            },
    {
        let component: &MutableComponent = match candidate.mutable_components.get(
            OBLIQ_TASK_INSTRUCTIONS_COMPONENT_ID,
        ) {
            Some(component) => component,
            None => {
                return Err(
                    failure_run(
                        example,
                        concat3(
                            "missing mutable component '",
                            OBLIQ_TASK_INSTRUCTIONS_COMPONENT_ID,
                            "'",
                        ),
                        0,
                    ),
                );
            },
        };
        let instructions: String = match &component.value {
            ComponentValue::Text { text } => text.clone(),
            _ => {
                return Err(
                    failure_run(
                        example,
                        concat3(
                            "component '",
                            OBLIQ_TASK_INSTRUCTIONS_COMPONENT_ID,
                            "' must be ComponentValue::Text",
                        ),
                        0,
                    ),
                );
            },
        };
        if let Some(term) = missing_term(
            &component.constraints.preserve_terms,
            instructions.as_str(),
        ) {
            return Err(violation_run(example, term.as_str()));
        }
        let candidates: String = join_path(run.run_dir.as_str(), "candidates");
        let work_dir: String = join_path(candidates.as_str(), candidate.id.as_str());
        let instructions_file: String = join_path(work_dir.as_str(), "obliq-instructions.txt");
        let benchmarks: String = join_path(work_dir.as_str(), ".benchmarks");
        let runs: String = join_path(join_path(benchmarks.as_str(), "obliq").as_str(), "runs");
        let output_dir: String = join_path(runs.as_str(), example.id.as_str());
        let arguments: Vec<String> = self.arguments(example, &instructions_file, &output_dir);
        Ok(
            EvaluationPlan { instructions, work_dir, instructions_file, output_dir, arguments },
        )
    }

    /// The relevance judgements of an example.
    pub fn gold(&self, example: &HarnessExample) -> (r: StringMap<Score>)
        ensures
            r@ == docs_of(self@.qrels, example@.id),
    {
        match self.qrels.get(example.id.as_str()) {
            Some(docs) => docs.duplicate(),
            None => StringMap::new(),
        }
    }
}

/// The run of a command that did not succeed.
pub fn failed_status(example: &HarnessExample, status: &str) -> (r: ExampleRun)
    ensures
        r@ == failed_run(example@, "lash-oblique exited with status: "@ + status@, 1),
{
    let mut text: String = "lash-oblique exited with status: ".to_string();
    text.append(status);
    failure_run(example, text, 1)
}

/// The path of the file that names the directory of the latest run.
pub fn latest_path(plan: &EvaluationPlan) -> (r: String)
    ensures
        r@ == path_join(plan@.output_dir, "_latest"@),
{
    join_path(plan.output_dir.as_str(), "_latest")
}

/// The path of a file of the run that `latest` names.
pub open spec fn run_file(
    output_dir: Seq<char>,
    latest: Seq<char>,
    example_id: Seq<char>,
    ending: Seq<char>,
) -> Seq<char> {
    path_join(
        path_join(path_join(output_dir, trimmed(latest)), "math"@),
        example_id + ending,
    )
}

/// The paths of the JSON file and of the trace of the run that `latest` names.
pub fn output_paths(plan: &EvaluationPlan, latest: &str, example: &HarnessExample) -> (r: (
    String,
    String,
))
    ensures
        r.0@ == run_file(plan@.output_dir, latest@, example@.id, ".json"@),
        r.1@ == run_file(plan@.output_dir, latest@, example@.id, ".trace.jsonl"@),
{
    let hash: String = trim(latest);
    let math: String = join_path(
        join_path(plan.output_dir.as_str(), hash.as_str()).as_str(),
        "math",
    );
    let mut json: String = example.id.clone();
    json.append(".json");
    let mut trace: String = example.id.clone();
    trace.append(".trace.jsonl");
    (join_path(math.as_str(), json.as_str()), join_path(math.as_str(), trace.as_str()))
}

/// The artifacts of a run.
pub open spec fn run_artifacts(json: Seq<char>, trace: Seq<char>) -> RunArtifactsView {
    RunArtifactsView {
        response_json: Some(json),
        typed_trace_jsonl: Some(trace),
        ..no_artifacts()
    }
}

fn build_artifacts(json: &str, trace: &str) -> (r: RunArtifacts)
    ensures
        r@ == run_artifacts(json@, trace@),
{
    RunArtifacts {
        response_json: Some(json.to_string()),
        typed_trace_jsonl: Some(trace.to_string()),
        request_json: None,
        candidate_json: None,
        session_db: None,
        rendered_evidence_json: None,
        score_report_json: None,
    }
}

/// The texts among values.
pub open spec fn texts_among(values: Seq<JsonView>) -> Seq<Seq<char>>
    decreases values.len(),
{
    if values.len() == 0 {
        Seq::empty()
    } else {
        let before = texts_among(values.drop_last());
        match values.last() {
            JsonView::Text(s) => before.push(s),
            _ => before,
        }
    }
}

/// The texts of the array that a member holds; none where it holds no array.
pub open spec fn member_texts(value: JsonView, key: Seq<char>) -> Seq<Seq<char>> {
    match items_of(member(value, key)) {
        Some(items) => texts_among(items),
        None => Seq::empty(),
    }
}

/// A number of the pooled metrics, or zero.
pub open spec fn pooled_double(value: JsonView, key: Seq<char>) -> Score {
    match double_of(opt_member(opt_member(member(value, "metrics"@), "pooled"@), key)) {
        Some(x) => x,
        None => Score { bits: 0 },
    }
}

/// The number, or zero.
pub open spec fn unsigned_or_zero(value: Option<JsonView>) -> u64 {
    match unsigned_of(value) {
        Some(n) => n,
        None => 0,
    }
}

/// Whether the agent submitted a ranked list: without one there are no metrics.
pub open spec fn submitted(value: JsonView) -> bool {
    member(value, "metrics"@) is Some && member(value, "metrics"@) != Some(JsonView::Null)
}

/// What the output of a run says of the ranked list.
pub open spec fn output_of(value: JsonView) -> RunOutputView {
    RunOutputView {
        score: pooled_double(value, "ndcg_at_10"@),
        recall_at_10: pooled_double(value, "recall_at_10"@),
        recall_at_100: pooled_double(value, "recall_at_100"@),
        gold_count: unsigned_or_zero(
            opt_member(opt_member(member(value, "metrics"@), "pooled"@), "gold_count"@),
        ),
        tool_calls: unsigned_or_zero(member(value, "tool_calls"@)),
        errors_count: match items_of(member(value, "errors"@)) {
            Some(items) => items.len() as usize,
            None => 0,
        },
        ranked_doc_ids: member_texts(value, "ranked_doc_ids"@),
    }
}

/// The run of an agent that did not submit a ranked list.
pub open spec fn unsubmitted_run(
    example: HarnessExampleView,
    value: JsonView,
    json: Seq<char>,
    trace: Seq<char>,
) -> ExampleRunView {
    let errors = member_texts(value, "errors"@);
    ExampleRunView {
        example,
        result: EvaluationResultView {
            example_id: example.id,
            split: example.split,
            score: Score { bits: 0 },
            passed: Some(false),
            feedback: Some(
                "agent did not submit a ranked list; errors: "@ + joined(errors, "; "@),
            ),
            metrics: Map::empty(),
            diagnostics: diagnostics_of("no_submission"@, 0, errors.len()),
        },
        trace: Some(TraceBundleView { example_id: example.id, records: Seq::empty() }),
        artifacts: run_artifacts(json, trace),
        metric_calls: 1,
    }
}

fn find_texts(value: &Json, key: &str) -> (r: Vec<String>)
    ensures
        views(r@) == member_texts(value@, key@),
{
    let mut r: Vec<String> = Vec::new();
    assert(views(r@) =~= Seq::empty());
    let items: &Vec<Json> = match value.get(key) {
        Some(found) => match found.as_array() {
            Some(items) => items,
            None => {
                return r;
            },
        },
        None => {
            return r;
        },
    };
    let ghost all = views(items@);
    let mut i: usize = 0;
    while i < items.len()
        invariant
            i <= items@.len(),
            all == views(items@),
            views(r@) == texts_among(all.take(i as int)),
        decreases items@.len() - i,
    {
        proof {
            assert(all.take(i + 1).drop_last() =~= all.take(i as int));
            assert(all.take(i + 1).last() == items@[i as int]@);
        }
        if let Some(text) = items[i].as_str() {
            let text: String = text.clone();
            proof {
                lemma_views_push(r@, text);
            }
            r.push(text);
        }
        i = i + 1;
    }
    assert(all.take(i as int) =~= all);
    r
}

fn find_pooled<'a>(value: &'a Json, key: &str) -> (r: Option<&'a Json>)
    ensures
        json_view(r) == opt_member(
            opt_member(member(value@, "metrics"@), "pooled"@),
            key@,
        ),
{
    get_in(get_in(value.get("metrics"), "pooled"), key)
}

fn find_double(value: &Json, key: &str) -> (r: Score)
    ensures
        r == pooled_double(value@, key@),
{
    match find_pooled(value, key) {
        Some(found) => match found.as_f64() {
            Some(x) => x,
            None => Score::zero(),
        },
        None => Score::zero(),
    }
}

fn find_unsigned(value: Option<&Json>) -> (r: u64)
    ensures
        r == unsigned_or_zero(json_view(value)),
{
    match value {
        Some(found) => match found.as_u64() {
            Some(n) => n,
            None => 0,
        },
        None => 0,
    }
}

/// Takes what the output of a run says of the ranked list, or makes the run of an agent that did
/// not submit one. The paths are those of the JSON file and of the trace.
pub fn judge_output(value: &Json, example: &HarnessExample, json: &str, trace: &str) -> (r: Result<
    RunOutput,
    ExampleRun,
>)
    ensures
        match r {
            Ok(output) => submitted(value@) && output@ == output_of(value@),
            Err(ended) => !submitted(value@) && ended@ == unsubmitted_run(
                example@,
                value@,
                json@,
                trace@,
            ),
        },
{
    let missing: bool = match value.get("metrics") {
        Some(metrics) => metrics.is_null(),
        None => true,
    };
    if missing {
        let errors: Vec<String> = find_texts(value, "errors");
        assert(views(errors@).len() == errors@.len());
        let mut feedback: String = "agent did not submit a ranked list; errors: ".to_string();
        feedback.append(join(&errors, "; ").as_str());
        let records: Vec<TraceRecord> = Vec::new();
        assert(views(records@) =~= Seq::empty());
        return Err(
            ExampleRun {
                example: example.duplicate(),
                result: EvaluationResult {
                    example_id: example.id.clone(),
                    split: example.split,
                    score: Score::zero(),
                    passed: Some(false),
                    feedback: Some(feedback),
                    metrics: StringMap::new(),
                    diagnostics: build_diagnostics("no_submission", 0, errors.len() as u64),
                },
                trace: Some(TraceBundle { example_id: example.id.clone(), records }),
                artifacts: build_artifacts(json, trace),
                metric_calls: 1,
            },
        );
    }
    let errors_count: usize = match value.get("errors") {
        Some(errors) => match errors.as_array() {
            Some(items) => {
                assert(views(items@).len() == items@.len());
                items.len()
            },
            None => 0,
        },
        None => 0,
    };
    Ok(
        RunOutput {
            score: find_double(value, "ndcg_at_10"),
            recall_at_10: find_double(value, "recall_at_10"),
            recall_at_100: find_double(value, "recall_at_100"),
            gold_count: find_unsigned(find_pooled(value, "gold_count")),
            tool_calls: find_unsigned(value.get("tool_calls")),
            errors_count,
            ranked_doc_ids: find_texts(value, "ranked_doc_ids"),
        },
    )
}

/// The last answer of the model that is not empty.
pub open spec fn last_answer(records: Seq<TraceRecordView>) -> Seq<char>
    decreases records.len(),
{
    if records.len() == 0 {
        ""@
    } else {
        match records.last().event {
            TraceEventView::LlmCallCompleted { response_text } => if response_text.len() > 0 {
                response_text
            } else {
                last_answer(records.drop_last())
            },
            _ => last_answer(records.drop_last()),
        }
    }
}

/// The last answer of the model that is not empty.
pub fn final_agent_text(records: &[TraceRecord]) -> (r: String)
    ensures
        r@ == last_answer(views(records@)),
{
    let ghost all = views(records@);
    let mut last: String = "".to_string();
    let mut i: usize = 0;
    while i < records.len()
        invariant
            i <= records@.len(),
            all == views(records@),
            last@ == last_answer(all.take(i as int)),
        decreases records@.len() - i,
    {
        proof {
            assert(all.take(i + 1).drop_last() =~= all.take(i as int));
            assert(all.take(i + 1).last() == records@[i as int]@);
        }
        if let TraceEvent::LlmCallCompleted { response_text } = &records[i].event {
            if response_text.as_str().unicode_len() > 0 {
                last = response_text.clone();
            }
        }
        i = i + 1;
    }
    assert(all.take(i as int) =~= all);
    last
}

/// The run of an agent that submitted a ranked list. `ndcg` is how the score is written.
pub open spec fn submitted_run(
    example: HarnessExampleView,
    output: RunOutputView,
    gold: Map<Seq<char>, Score>,
    records: Seq<TraceRecordView>,
    ndcg: Seq<char>,
    json: Seq<char>,
    trace: Seq<char>,
) -> ExampleRunView {
    ExampleRunView {
        example,
        result: EvaluationResultView {
            example_id: example.id,
            split: example.split,
            score: output.score,
            passed: Some((Score { bits: 0 }).lt(output.score)),
            feedback: Some(
                asi_feedback(records, output.ranked_doc_ids, gold, ndcg, last_answer(records)),
            ),
            metrics: map![
                "recall_at_10"@ => output.recall_at_10,
                "recall_at_100"@ => output.recall_at_100,
                "gold_count"@ => Score { bits: nearest_double(output.gold_count as nat) as u64 },
            ],
            diagnostics: diagnostics_of(
                "submitted"@,
                output.tool_calls as nat,
                output.errors_count as nat,
            ),
        },
        trace: Some(TraceBundleView { example_id: example.id, records }),
        artifacts: run_artifacts(json, trace),
        metric_calls: 1,
    }
}

/// Makes the run of an agent that submitted a ranked list. `ndcg` is how the score is written, and
/// the paths are those of the JSON file and of the trace.
pub fn complete_run(
    example: &HarnessExample,
    output: &RunOutput,
    gold: &StringMap<Score>,
    records: Vec<TraceRecord>,
    ndcg: &str,
    json: &str,
    trace: &str,
) -> (r: ExampleRun)
    requires
        countable(views(records@)),
    ensures
        r@ == submitted_run(
            example@,
            output@,
            gold@,
            views(records@),
            ndcg@,
            json@,
            trace@,
        ),
{
    let text: String = final_agent_text(records.as_slice());
    let feedback: String = build_asi_feedback(
        records.as_slice(),
        output.ranked_doc_ids.as_slice(),
        gold,
        ndcg,
        text.as_str(),
    );
    let mut metrics: StringMap<Score> = StringMap::new();
    metrics.insert("recall_at_10".to_string(), output.recall_at_10);
    metrics.insert("recall_at_100".to_string(), output.recall_at_100);
    metrics.insert("gold_count".to_string(), Score::from_u64(output.gold_count));
    ExampleRun {
        example: example.duplicate(),
        result: EvaluationResult {
            example_id: example.id.clone(),
            split: example.split,
            score: output.score,
            passed: Some(Score::zero().less_than(&output.score)),
            feedback: Some(feedback),
            metrics,
            diagnostics: build_diagnostics(
                "submitted",
                output.tool_calls,
                output.errors_count as u64,
            ),
        },
        trace: Some(TraceBundle { example_id: example.id.clone(), records }),
        artifacts: build_artifacts(json, trace),
        metric_calls: 1,
    }
}

} // verus!
