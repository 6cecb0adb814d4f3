//! Calendar dates of moments given in seconds since the start of 1970.

use vstd::arithmetic::div_mod::{lemma_hoist_over_denominator, lemma_mod_multiples_vanish};
use vstd::prelude::*;
use vstd::string::*;

use crate::text::{padded, padded_text};

verus! {

/// Whether a year of the Gregorian calendar has 366 days.
pub open spec fn leap(year: nat) -> bool {
    year % 4 == 0 && (year % 100 != 0 || year % 400 == 0)
}

/// The number of days of a year.
pub open spec fn year_length(year: nat) -> nat {
    if leap(year) {
        366
    } else {
        365
    }
}

/// The number of days of a month, which is counted from one.
pub open spec fn month_length(year: nat, month: nat) -> nat {
    if month == 4 || month == 6 || month == 9 || month == 11 {
        30
    } else if month == 2 {
        if leap(year) {
            29
        } else {
            28
        }
    } else {
        31
    }
}

/// The number of days from the start of the year zero to the start of a year.
pub open spec fn days_before_year(year: nat) -> nat
    decreases year,
{
    if year == 0 {
        0
    } else {
        days_before_year((year - 1) as nat) + year_length((year - 1) as nat)
    }
}

/// The number of days from the start of a year to the start of a month.
pub open spec fn days_before_month(year: nat, month: nat) -> nat
    decreases month,
{
    if month <= 1 {
        0
    } else {
        days_before_month(year, (month - 1) as nat) + month_length(year, (month - 1) as nat)
    }
}

/// Whether there is such a date.
pub open spec fn valid_date(year: nat, month: nat, day: nat) -> bool {
    1 <= month <= 12 && 1 <= day <= month_length(year, month)
}

/// The number of days from the start of the year zero to a date.
pub open spec fn day_number(year: nat, month: nat, day: nat) -> int {
    days_before_year(year) + days_before_month(year, month) + day - 1
}

/// The number of days from the start of the year zero to the start of 1970.
pub open spec fn epoch() -> int {
    719528
}

#[verifier::spinoff_prover]
#[verifier::rlimit(60)]
proof fn lemma_days_before_year(year: nat)
    ensures
        days_before_year(year) == 365 * year + (year + 3) / 4 - (year + 99) / 100 + (year + 399)
            / 400,
    decreases year,
{
    if year > 0 {
        let p = (year - 1) as nat;
        lemma_days_before_year(p);
        assert((p + 4) / 4 == (p + 3) / 4 + if p % 4 == 0 {
            1int
        } else {
            0
        });
        assert((p + 100) / 100 == (p + 99) / 100 + if p % 100 == 0 {
            1int
        } else {
            0
        });
        assert((p + 400) / 400 == (p + 399) / 400 + if p % 400 == 0 {
            1int
        } else {
            0
        });
        assert(p % 100 == 0 ==> p % 4 == 0);
        assert(p % 400 == 0 ==> p % 100 == 0);
    }
}

/// The days before a year, of which the eras are taken apart.
proof fn lemma_days_before_year_of_era(era: nat, rest: nat)
    ensures
        days_before_year(era * 400 + rest) == 146097 * era + 365 * rest + (rest + 3) / 4 - (rest
            + 99) / 100 + (rest + 399) / 400,
        leap(era * 400 + rest) == leap(rest),
{
    lemma_days_before_year(era * 400 + rest);
    let (e, r) = (era as int, rest as int);
    assert((e * 400 + r + 3) / 4 == e * 100 + (r + 3) / 4) by {
        lemma_hoist_over_denominator(r + 3, e * 100, 4);
    }
    assert((e * 400 + r + 99) / 100 == e * 4 + (r + 99) / 100) by {
        lemma_hoist_over_denominator(r + 99, e * 4, 100);
    }
    assert((e * 400 + r + 399) / 400 == e + (r + 399) / 400) by {
        lemma_hoist_over_denominator(r + 399, e, 400);
    }
    assert((e * 400 + r) % 4 == r % 4) by {
        lemma_mod_multiples_vanish(e * 100, r, 4);
    }
    assert((e * 400 + r) % 100 == r % 100) by {
        lemma_mod_multiples_vanish(e * 4, r, 100);
    }
    assert((e * 400 + r) % 400 == r % 400) by {
        lemma_mod_multiples_vanish(e, r, 400);
    }
}

/// The first of March of a year, counted in days from the first of March of the year zero.
proof fn lemma_first_of_march(era: nat, rest: nat)
    requires
        rest < 400,
    ensures
        days_before_year(era * 400 + rest) + days_before_month(era * 400 + rest, 3) == 146097
            * era + 365 * rest + rest / 4 - rest / 100 + 60,
        days_before_year(era * 400 + rest + 1) == 146097 * era + 365 * rest + rest / 4 - rest / 100
            + 366,
{
    lemma_days_before_year_of_era(era, rest);
    lemma_days_before_year_of_era(era, rest + 1);
    lemma_days_before_month(era * 400 + rest);
    assert((rest + 3) / 4 == rest / 4 + if rest % 4 == 0 {
        0int
    } else {
        1
    });
    assert((rest + 99) / 100 == rest / 100 + if rest % 100 == 0 {
        0int
    } else {
        1
    });
    assert((rest + 399) / 400 == if rest == 0 {
        0int
    } else {
        1
    });
    assert(rest % 100 == 0 ==> rest % 4 == 0);
    assert(rest % 400 == 0 ==> rest == 0);
    assert((rest + 4) / 4 == rest / 4 + 1);
    assert((rest + 100) / 100 == rest / 100 + 1);
    assert((rest + 400) / 400 == 1);
}

/// The month and the day of a day of a year that starts in March.
proof fn lemma_month_of_year(doy: int)
    requires
        0 <= doy <= 365,
    ensures
        ({
            let mp = (5 * doy + 2) / 153;
            let start = (153 * mp + 2) / 5;
            &&& 0 <= mp <= 11
            &&& start <= doy
            &&& mp == 0 ==> start == 0 && doy < 31
            &&& mp == 1 ==> start == 31 && doy < 61
            &&& mp == 2 ==> start == 61 && doy < 92
            &&& mp == 3 ==> start == 92 && doy < 122
            &&& mp == 4 ==> start == 122 && doy < 153
            &&& mp == 5 ==> start == 153 && doy < 184
            &&& mp == 6 ==> start == 184 && doy < 214
            &&& mp == 7 ==> start == 214 && doy < 245
            &&& mp == 8 ==> start == 245 && doy < 275
            &&& mp == 9 ==> start == 275 && doy < 306
            &&& mp == 10 ==> start == 306 && doy < 337
            &&& mp == 11 ==> start == 337
        }),
{
}

proof fn lemma_days_before_month(year: nat)
    ensures
        days_before_month(year, 1) == 0,
        days_before_month(year, 2) == 31,
        ({
            let l: nat = if leap(year) {
                1
            } else {
                0
            };
            &&& days_before_month(year, 3) == 59 + l
            &&& days_before_month(year, 4) == 90 + l
            &&& days_before_month(year, 5) == 120 + l
            &&& days_before_month(year, 6) == 151 + l
            &&& days_before_month(year, 7) == 181 + l
            &&& days_before_month(year, 8) == 212 + l
            &&& days_before_month(year, 9) == 243 + l
            &&& days_before_month(year, 10) == 273 + l
            &&& days_before_month(year, 11) == 304 + l
            &&& days_before_month(year, 12) == 334 + l
        }),
{
    reveal_with_fuel(days_before_month, 13);
}

/// The start of 1970 is the first of January of that year.
pub proof fn epoch_is_new_year_1970()
    ensures
        day_number(1970, 1, 1) == epoch(),
{
    lemma_days_before_year(1970);
}

/// A number of days belongs to one date only.
pub proof fn dates_are_unique(
    year: nat,
    month: nat,
    day: nat,
    other_year: nat,
    other_month: nat,
    other_day: nat,
)
    requires
        valid_date(year, month, day),
        valid_date(other_year, other_month, other_day),
        day_number(year, month, day) == day_number(other_year, other_month, other_day),
    ensures
        year == other_year,
        month == other_month,
        day == other_day,
{
    lemma_within_year(year, month, day);
    lemma_within_year(other_year, other_month, other_day);
    if year < other_year {
        lemma_years_increase(year, other_year);
    } else if other_year < year {
        lemma_years_increase(other_year, year);
    } else {
        lemma_days_before_month(year);
    }
}

proof fn lemma_within_year(year: nat, month: nat, day: nat)
    requires
        valid_date(year, month, day),
    ensures
        days_before_year(year) <= day_number(year, month, day) < days_before_year(year + 1),
{
    lemma_days_before_month(year);
}

proof fn lemma_years_increase(year: nat, later: nat)
    requires
        year < later,
    ensures
        days_before_year(year + 1) <= days_before_year(later),
    decreases later - year,
{
    if year + 1 < later {
        lemma_years_increase(year, (later - 1) as nat);
    }
}

/// The date that lies a number of days after the start of 1970: year, month and day.
pub open spec fn date_of(days: nat) -> (nat, nat, nat) {
    choose|date: (nat, nat, nat)|
        valid_date(date.0, date.1, date.2) && #[trigger] day_number(date.0, date.1, date.2)
            == epoch() + days
}

/// Converts days since the start of 1970 to year, month and day.
///
/// Years are taken to start in March, so that the leap day is the last day of a year, and are
/// grouped in eras of 400 years.
pub fn days_to_ymd(days: u64) -> (r: (u64, u64, u64))
    requires
        days <= u64::MAX - 719468,
    ensures
        valid_date(r.0 as nat, r.1 as nat, r.2 as nat),
        day_number(r.0 as nat, r.1 as nat, r.2 as nat) == epoch() + days,
        (r.0 as nat, r.1 as nat, r.2 as nat) == date_of(days as nat),
{
    let z: u64 = days + 719468;
    let era: u64 = z / 146097;
    let doe: u64 = z % 146097;
    let yoe: u64 = (doe - doe / 1460 + doe / 36524 - doe / 146096) / 365;
    proof {
        lemma_year_of_era(doe as int);
    }
    let y: u64 = yoe + era * 400;
    let doy: u64 = doe - (365 * yoe + yoe / 4 - yoe / 100);
    proof {
        lemma_month_of_year(doy as int);
    }
    let mp: u64 = (5 * doy + 2) / 153;
    let d: u64 = doy - (153 * mp + 2) / 5 + 1;
    let m: u64 = if mp < 10 {
        mp + 3
    } else {
        mp - 9
    };
    let y2: u64 = if m <= 2 {
        y + 1
    } else {
        y
    };
    proof {
        lemma_first_of_march(era as nat, yoe as nat);
        lemma_days_before_month(y2 as nat);
        lemma_days_before_year_of_era(era as nat, (yoe + 1) as nat);
    }
    proof {
        let found = (y2 as nat, m as nat, d as nat);
        assert(day_number(found.0, found.1, found.2) == epoch() + days);
        let date = date_of(days as nat);
        dates_are_unique(found.0, found.1, found.2, date.0, date.1, date.2);
    }
    (y2, m, d)
}

/// The year of an era and the day of that year.
proof fn lemma_year_of_era(doe: int)
    requires
        0 <= doe <= 146096,
    ensures
        ({
            let yoe = (doe - doe / 1460 + doe / 36524 - doe / 146096) / 365;
            let doy = doe - (365 * yoe + yoe / 4 - yoe / 100);
            &&& 0 <= yoe < 400
            &&& 0 <= doy <= 365
            &&& doy == 365 ==> leap((yoe + 1) as nat)
        }),
{
}

/// A moment, in seconds since the start of 1970, in the form of RFC 3339.
pub open spec fn timestamp(secs: nat) -> Seq<char> {
    let (year, month, day) = date_of(secs / 86400);
    padded(year, 4) + "-"@ + padded(month, 2) + "-"@ + padded(day, 2) + "T"@ + padded(
        secs / 3600 % 24,
        2,
    ) + ":"@ + padded(secs / 60 % 60, 2) + ":"@ + padded(secs % 60, 2) + "Z"@
}

/// Writes a moment, in seconds since the start of 1970, in the form of RFC 3339.
pub fn rfc3339(secs: u64) -> (r: String)
    ensures
        r@ == timestamp(secs as nat),
{
    let (year, month, day) = days_to_ymd(secs / 86400);
    let mut r: String = padded_text(year, 4);
    r.append("-");
    r.append(padded_text(month, 2).as_str());
    r.append("-");
    r.append(padded_text(day, 2).as_str());
    r.append("T");
    r.append(padded_text(secs / 3600 % 24, 2).as_str());
    r.append(":");
    r.append(padded_text(secs / 60 % 60, 2).as_str());
    r.append(":");
    r.append(padded_text(secs % 60, 2).as_str());
    r.append("Z");
    r
}

} // verus!
