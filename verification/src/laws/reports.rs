//! Laws of timestamps and of the reports on projects and runs.

use vstd::prelude::*;

use crate::calendar::{
    date_of, dates_are_unique, day_number, epoch, month_length, timestamp, valid_date,
    year_length,
};
use crate::commands::{check_report, stats_report};
use crate::json::{JsonView, NumberView};
use crate::laws::proposals::says;
use crate::model::{CandidateView, OptimizationStateView};
use crate::string_map::{enumerates, in_order, lemma_enumeration_unique};
use crate::text::{decimal, padded};

verus! {

/// The time that a timestamp writes is the one that it was made of: so many days after the start
/// of 1970 as the date says, and so many seconds into the day as the time says.
pub proof fn timestamps_write_the_moment(
    year: nat,
    month: nat,
    day: nat,
    hour: nat,
    minute: nat,
    second: nat,
    days: nat,
)
    requires
        valid_date(year, month, day),
        day_number(year, month, day) == day_number(1970, 1, 1) + days,
        hour < 24,
        minute < 60,
        second < 60,
    ensures
        timestamp(days * 86400 + hour * 3600 + minute * 60 + second) == padded(year, 4) + "-"@
            + padded(month, 2) + "-"@ + padded(day, 2) + "T"@ + padded(hour, 2) + ":"@ + padded(
            minute,
            2,
        ) + ":"@ + padded(second, 2) + "Z"@,
{
    crate::calendar::epoch_is_new_year_1970();
    let secs = days * 86400 + hour * 3600 + minute * 60 + second;
    assert(secs / 86400 == days);
    assert(secs / 3600 == days * 24 + hour);
    assert(secs / 3600 % 24 == hour);
    assert(secs / 60 == (days * 24 + hour) * 60 + minute);
    assert(secs / 60 % 60 == minute);
    assert(secs % 60 == second);
    let date = date_of(days);
    assert(day_number(year, month, day) == epoch() + days);
    let found = (year, month, day);
    assert(valid_date(found.0, found.1, found.2) && day_number(found.0, found.1, found.2)
        == epoch() + days);
    dates_are_unique(year, month, day, date.0, date.1, date.2);
}

/// The months of a year have the days of the calendar, and together those of the year; a year is
/// longer by a day where it can be divided by four, unless by a hundred and not by four hundred.
pub proof fn months_have_the_days_of_the_calendar(year: nat)
    ensures
        month_length(year, 1) == 31 && month_length(year, 3) == 31 && month_length(year, 5) == 31
            && month_length(year, 7) == 31 && month_length(year, 8) == 31 && month_length(year, 10)
            == 31 && month_length(year, 12) == 31,
        month_length(year, 4) == 30 && month_length(year, 6) == 30 && month_length(year, 9) == 30
            && month_length(year, 11) == 30,
        year_length(year) == 337 + month_length(year, 2),
        year % 4 != 0 ==> month_length(year, 2) == 28,
        year % 100 == 0 && year % 400 != 0 ==> month_length(year, 2) == 28,
        year % 400 == 0 ==> month_length(year, 2) == 29,
        year % 4 == 0 && year % 100 != 0 ==> month_length(year, 2) == 29,
{
    assert(year % 400 == 0 ==> year % 4 == 0);
    assert(year % 100 == 0 ==> year % 4 == 0);
}

/// Whether an object says a number under a name.
pub open spec fn counts(object: JsonView, name: Seq<char>, n: nat) -> bool {
    exists|number: NumberView|
        #[trigger] says(object, name, JsonView::Number(number)) && number.text == decimal(n)
            && number.unsigned == Some(n as u64)
}

proof fn lemma_counts(object: JsonView, name: Seq<char>, n: nat, at: int)
    requires
        object is Object,
        0 <= at < object->Object_0.len(),
        object->Object_0[at] == (name, crate::json::unsigned_number(n)),
    ensures
        counts(object, name, n),
{
    let number = crate::json::unsigned_number(n)->Number_0;
    assert(object->Object_0[at] == (name, JsonView::Number(number)));
    assert(says(object, name, JsonView::Number(number)));
}

/// The report on a project has the ids of its components, in order, and the sizes of its three
/// sets.
pub proof fn projects_are_reported_with_their_sizes(
    seed: CandidateView,
    train: nat,
    val: nat,
    test: nat,
    ids: Seq<Seq<char>>,
)
    requires
        enumerates(ids, seed.mutable_components.dom()),
    ensures
        ({
            let report = check_report(seed, train, val, test);
            &&& says(report, "status"@, JsonView::Text("ok"@))
            &&& says(report, "project"@, JsonView::Text("toybench"@))
            &&& says(
                report,
                "mutable_components"@,
                JsonView::Array(ids.map_values(|id: Seq<char>| JsonView::Text(id))),
            )
            &&& exists|sizes: JsonView|
                #![trigger says(report, "examples"@, sizes)]
                says(report, "examples"@, sizes) && counts(sizes, "train"@, train) && counts(
                    sizes,
                    "val"@,
                    val,
                ) && counts(sizes, "test"@, test)
        }),
{
    let dom = seed.mutable_components.dom();
    lemma_enumeration_unique(ids, in_order(dom), dom);
    let report = check_report(seed, train, val, test);
    let m = report->Object_0;
    let sizes = m[0].1;
    assert(m[0] == ("examples"@, sizes));
    assert(says(report, "examples"@, sizes));
    lemma_counts(sizes, "test"@, test, 0);
    lemma_counts(sizes, "train"@, train, 1);
    lemma_counts(sizes, "val"@, val, 2);
    assert(m[1].0 == "mutable_components"@);
    assert(m[2] == ("project"@, JsonView::Text("toybench"@)));
    assert(m[3] == ("status"@, JsonView::Text("ok"@)));
    assert(m[1].1->Array_0 =~= ids.map_values(|id: Seq<char>| JsonView::Text(id)));
    assert(says(report, "mutable_components"@, m[1].1));
}

/// The report on a run has the counts of its state, the best candidate with its mean score and the
/// size of the front.
pub proof fn runs_are_reported_with_their_counts(
    state: OptimizationStateView,
    best: Option<Seq<char>>,
    mean: Option<JsonView>,
    coverage: nat,
)
    ensures
        ({
            let report = stats_report(state, best, mean, coverage);
            &&& says(report, "run_id"@, JsonView::Text(state.run.run_id))
            &&& says(report, "experiment_id"@, JsonView::Text(state.run.experiment_id))
            &&& counts(report, "accepted_proposals"@, state.accepted_proposals as nat)
            &&& counts(report, "rejected_proposals"@, state.rejected_proposals as nat)
            &&& counts(report, "cache_hits"@, state.cache_hits as nat)
            &&& counts(report, "cache_misses"@, state.cache_misses as nat)
            &&& counts(report, "metric_calls_used"@, state.metric_calls_used as nat)
            &&& counts(report, "evaluated_candidates"@, state.evaluated_candidates.len())
            &&& counts(report, "pareto_coverage"@, coverage)
            &&& best matches Some(id) ==> says(report, "best_candidate_id"@, JsonView::Text(id))
            &&& best is None ==> says(report, "best_candidate_id"@, JsonView::Null)
            &&& mean matches Some(value) ==> says(report, "best_mean_score"@, value)
            &&& mean is None ==> says(report, "best_mean_score"@, JsonView::Null)
        }),
{
    let report = stats_report(state, best, mean, coverage);
    let m = report->Object_0;
    lemma_counts(report, "accepted_proposals"@, state.accepted_proposals as nat, 0);
    assert(m[1].0 == "best_candidate_id"@ && m[2].0 == "best_mean_score"@);
    lemma_counts(report, "cache_hits"@, state.cache_hits as nat, 3);
    lemma_counts(report, "cache_misses"@, state.cache_misses as nat, 4);
    lemma_counts(report, "evaluated_candidates"@, state.evaluated_candidates.len(), 5);
    assert(m[6].0 == "experiment_id"@);
    lemma_counts(report, "metric_calls_used"@, state.metric_calls_used as nat, 7);
    lemma_counts(report, "pareto_coverage"@, coverage, 8);
    lemma_counts(report, "rejected_proposals"@, state.rejected_proposals as nat, 9);
    assert(m[10].0 == "run_id"@);
    assert(m.contains(m[1]) && m.contains(m[2]) && m.contains(m[6]) && m.contains(m[10]));
}

} // verus!
