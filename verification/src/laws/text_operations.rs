//! Laws of the operations on text, numbers and JSON: what holds of what a call is given and what it
//! returns.

use vstd::prelude::*;

use crate::calendar::{days_to_ymd, rfc3339, timestamp};
use crate::json::{
    compact, key_ordered, member, member_views, object_of, parse_json, parse_json_bytes, parsed,
    parsed_bytes, pretty, Json, JsonView,
};
use crate::laws::text::numeral;
use crate::score::{nearest_double, Score};
use crate::string_map::StringMap;
use crate::text::{
    contains, count_matches, decimal, decimal_text, find_from, first_from, hex16, is_infix,
    is_space, is_whitespace, join, join_path, joined, lines, occurs_at, padded, padded_text,
    path_join, prefix, replace_text, replaced, same_text, split_text, take_chars, text_before,
    text_lines, text_lt, trim, trimmed,
};
use crate::views::views;

verus! {

/// A text contains a term exactly when it is made of something, the term and something more.
pub proof fn searching_finds_what_is_there(
    text: &str,
    term: &str,
    found: bool,
    before: Seq<char>,
    after: Seq<char>,
)
    requires
        call_ensures(contains, (text, term), found),
    ensures
        text@ == before + term@ + after ==> found,
        found ==> exists|x: Seq<char>, y: Seq<char>| text@ == #[trigger] (x + term@ + y),
{
    crate::laws::text::containing_is_having_around(term@, text@);
    if text@ == before + term@ + after {
        let whole = before + term@ + after;
        assert(text@ == whole);
    }
}

/// The pieces of a text, joined by the separator, are the text again, and none of them contains
/// the separator; there is one more of them than the separator is counted.
pub proof fn splitting_can_be_undone(
    text: &str,
    separator: &str,
    pieces: Vec<String>,
    whole: String,
    n: usize,
    i: int,
)
    requires
        separator@.len() > 0,
        call_ensures(split_text, (text, separator), pieces),
        call_ensures(join, (&pieces, separator), whole),
        call_ensures(count_matches, (text, separator), n),
        0 <= i < pieces@.len(),
    ensures
        whole@ == text@,
        pieces@.len() == n + 1,
        !is_infix(separator@, pieces@[i]@),
{
    crate::laws::text::pieces_join_to_the_text(text@, separator@);
    assert(views(pieces@)[i] == pieces@[i]@);
}

/// Replacing a term puts the other text where the term stood: the pieces stay.
pub proof fn replacing_keeps_the_pieces(
    text: &str,
    term: &str,
    with: &str,
    changed: String,
    before: Seq<char>,
    rest: Seq<char>,
)
    requires
        term@.len() > 0,
        call_ensures(replace_text, (text, term, with), changed),
    ensures
        !is_infix(term@, text@) ==> changed@ == text@,
        text@ == before + term@ + rest && (forall|i: int|
            0 <= i < before.len() ==> !occurs_at(before + term@, term@, i)) ==> changed@ == before
            + with@ + replaced(rest, term@, with@),
{
    if !is_infix(term@, text@) {
        crate::laws::text::texts_without_the_pattern_stay_whole(text@, term@, with@);
    }
    if text@ == before + term@ + rest && (forall|i: int|
        0 <= i < before.len() ==> !occurs_at(before + term@, term@, i)) {
        crate::laws::text::texts_are_cut_at_the_first_occurrence(before, term@, rest, with@);
    }
}

/// A trimmed text is what stands between the white space at the ends of a text.
pub proof fn trimming_takes_white_space_away(
    text: &str,
    kept: String,
    before: Seq<char>,
    inner: Seq<char>,
    after: Seq<char>,
)
    requires
        call_ensures(trim, (text,), kept),
        text@ == before + inner + after,
        forall|i: int| 0 <= i < before.len() ==> is_space(#[trigger] before[i]),
        forall|i: int| 0 <= i < after.len() ==> is_space(#[trigger] after[i]),
        inner.len() > 0 ==> !is_space(inner[0]) && !is_space(inner[inner.len() - 1]),
    ensures
        kept@ == inner,
{
    crate::laws::synthetic::trimming_removes_surrounding_space(before, inner, after);
}

/// What is written of a number reads as the number.
pub proof fn writing_a_number_writes_it(n: u64, width: usize, plain: String, hex: String)
    requires
        call_ensures(decimal_text, (n,), plain),
        call_ensures(hex16, (n,), hex),
    ensures
        numeral(plain@, 10) == n,
        n > 0 ==> plain@[0] != '0',
        hex@.len() == 16,
        numeral(hex@, 16) == n,
        forall|filled: String| #[trigger]
            call_ensures(padded_text, (n, width), filled) ==> filled@ == padded(
                n as nat,
                width as nat,
            ),
{
    crate::laws::text::decimals_write_the_number(n as nat);
    crate::laws::text::digits_write_the_number(n as nat, 16, 16);
    assert(vstd::arithmetic::power::pow(16, 16) == 0x1_0000_0000_0000_0000) by {
        reveal_with_fuel(vstd::arithmetic::power::pow, 17);
    }
    vstd::arithmetic::div_mod::lemma_small_mod(n as nat, 0x1_0000_0000_0000_0000);
}

/// What the other functions on text return, in the words of the other laws.
pub proof fn texts_are_handled_as_the_laws_say(text: &str, other: &str)
    ensures
        forall|r: Vec<String>| #[trigger]
            call_ensures(lines, (text,), r) ==> views(r@) == text_lines(text@),
        forall|n: usize, r: String| #[trigger]
            call_ensures(take_chars, (text, n), r) ==> r@ == prefix(text@, n as nat),
        forall|pieces: Vec<String>, r: String| #[trigger]
            call_ensures(join, (&pieces, text), r) ==> r@ == joined(views(pieces@), text@),
        forall|r: String| #[trigger]
            call_ensures(join_path, (text, other), r) ==> r@ == path_join(text@, other@),
        forall|r: bool| #[trigger]
            call_ensures(same_text, (text, other), r) ==> r == (text@ == other@),
        forall|r: bool| #[trigger]
            call_ensures(text_before, (text, other), r) ==> r == text_lt(text@, other@),
        forall|c: char, r: bool| #[trigger]
            call_ensures(is_whitespace, (c,), r) ==> r == is_space(c),
        forall|s: Vec<char>, pattern: Vec<char>, start: usize, r: Option<usize>| #[trigger]
            call_ensures(find_from, (&s, &pattern, start), r) ==> match r {
                Some(i) => first_from(s@, pattern@, start as int) == Some(i as int),
                None => first_from(s@, pattern@, start as int) is None,
            },
{
}

/// White space is what Unicode says it is.
pub proof fn white_space_is_that_of_unicode(c: char)
    ensures
        c == ' ' || c == '\t' || c == '\n' || c == '\r' ==> is_space(c),
        c as u32 == 0x85 || c as u32 == 0xa0 || c as u32 == 0x1680 || c as u32 == 0x3000
            ==> is_space(c),
        0x21 <= c as u32 <= 0x7e ==> !is_space(c),
        c as u32 > 0x3000 ==> !is_space(c),
{
}

/// What the functions on scores return, in the words of the other laws.
pub proof fn scores_are_compared_as_the_laws_say(a: Score, b: Score)
    ensures
        forall|r: bool| #[trigger] call_ensures(Score::less_than, (&a, &b), r) ==> r == a.lt(b),
        forall|r: bool| #[trigger] call_ensures(Score::at_least, (&a, &b), r) ==> r == a.ge(b),
        forall|r: bool| #[trigger]
            call_ensures(Score::same_number, (&a, &b), r) ==> r == a.same(b),
        forall|r: Score| #[trigger] call_ensures(Score::max, (&a, &b), r) ==> r == a.greater(b),
        forall|r: bool| #[trigger] call_ensures(Score::is_nan, (&a,), r) ==> r == a.nan(),
        forall|r: bool| #[trigger] call_ensures(Score::is_finite, (&a,), r) ==> r == a.finite(),
        forall|n: u64, r: Score| #[trigger]
            call_ensures(Score::from_u64, (n,), r) ==> r.bits == nearest_double(n as nat),
        forall|r: Score| #[trigger] call_ensures(Score::zero, (), r) ==> r.bits == 0,
        forall|r: Score| #[trigger]
            call_ensures(Score::one, (), r) ==> r.bits == 0x3ff0_0000_0000_0000,
{
}

/// What the functions on JSON return, in the words of the other laws.
pub proof fn json_is_handled_as_the_laws_say(value: Json, name: &str)
    ensures
        forall|r: Option<&Json>| #[trigger]
            call_ensures(Json::get, (&value, name), r) ==> match r {
                Some(found) => member(value@, name@) == Some(found@),
                None => member(value@, name@) is None,
            },
        forall|r: Option<&String>| #[trigger]
            call_ensures(Json::as_str, (&value,), r) ==> match r {
                Some(text) => value@ == JsonView::Text(text@),
                None => value@ !is Text,
            },
        forall|r: Option<&Vec<Json>>| #[trigger]
            call_ensures(Json::as_array, (&value,), r) ==> match r {
                Some(items) => value@ == JsonView::Array(views(items@)),
                None => value@ !is Array,
            },
        forall|r: Option<u64>| #[trigger]
            call_ensures(Json::as_u64, (&value,), r) ==> match value@ {
                JsonView::Number(n) => r == n.unsigned,
                _ => r is None,
            },
        forall|r: Option<Score>| #[trigger]
            call_ensures(Json::as_f64, (&value,), r) ==> match value@ {
                JsonView::Number(n) => r == Some(n.double),
                _ => r is None,
            },
        forall|r: bool| #[trigger]
            call_ensures(Json::is_null, (&value,), r) ==> r == (value@ is Null),
        forall|r: Json| #[trigger] call_ensures(Json::copy, (&value,), r) ==> r@ == value@,
        forall|r: Json| #[trigger]
            call_ensures(Json::in_key_order, (&value,), r) ==> r@ == key_ordered(value@),
        forall|r: String| #[trigger]
            call_ensures(Json::to_compact, (&value,), r) ==> r@ == compact(value@),
        forall|r: String| #[trigger]
            call_ensures(Json::to_pretty, (&value,), r) ==> r@ == pretty(value@),
        forall|r: Json| #[trigger]
            call_ensures(Json::text, (name,), r) ==> r@ == JsonView::Text(name@),
        forall|n: u64, r: Json| #[trigger]
            call_ensures(Json::unsigned, (n,), r) ==> (r@ matches JsonView::Number(number)
                && number.unsigned == Some(n) && number.text == decimal(n as nat)
                && number.double.bits == nearest_double(n as nat) as u64),
        forall|members: Vec<(String, Json)>, r: Json| #[trigger]
            call_ensures(Json::object, (members,), r) ==> r@ == JsonView::Object(
                member_views(members@),
            ),
        forall|items: Vec<Json>, r: Json| #[trigger]
            call_ensures(Json::array, (items,), r) ==> r@ == JsonView::Array(views(items@)),
        forall|entries: StringMap<Json>, r: Json| #[trigger]
            call_ensures(Json::of_map, (&entries,), r) ==> r@ == object_of(entries@),
        forall|r: Result<Json, String>| #[trigger]
            call_ensures(parse_json, (name,), r) ==> match (r, parsed(name@)) {
                (Ok(read), Ok(tree)) => read@ == tree,
                (Err(message), Err(text)) => message@ == text,
                _ => false,
            },
        forall|bytes: &[u8], r: Result<Json, String>| #[trigger]
            call_ensures(parse_json_bytes, (bytes,), r) ==> match (r, parsed_bytes(bytes@)) {
                (Ok(read), Ok(tree)) => read@ == tree,
                (Err(message), Err(text)) => message@ == text,
                _ => false,
            },
{
}

/// A date is the one that lies so many days after the start of 1970, and a moment is written as
/// the laws say.
pub proof fn moments_are_written_as_the_laws_say(days: u64, secs: u64)
    ensures
        forall|r: (u64, u64, u64)| #[trigger]
            call_ensures(days_to_ymd, (days,), r) ==> crate::calendar::valid_date(
                r.0 as nat,
                r.1 as nat,
                r.2 as nat,
            ) && crate::calendar::day_number(r.0 as nat, r.1 as nat, r.2 as nat)
                == crate::calendar::day_number(1970, 1, 1) + days,
        forall|r: String| #[trigger]
            call_ensures(rfc3339, (secs,), r) ==> r@ == timestamp(secs as nat),
{
    crate::calendar::epoch_is_new_year_1970();
}

} // verus!
