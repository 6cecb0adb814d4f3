//! Text as sequences of characters: searching, splitting, trimming and number formatting.

use vstd::prelude::*;
use vstd::string::*;

use crate::views::{lemma_take_next, lemma_views_push, views};

verus! {

/// `String::push` appends one character to the end of the string and changes nothing else.
pub assume_specification[ std::string::String::push ](s: &mut std::string::String, c: char)
    ensures
        final(s)@ == old(s)@.push(c),
;

/// Whether `pattern` stands in `s` at position `i`.
pub open spec fn occurs_at(s: Seq<char>, pattern: Seq<char>, i: int) -> bool {
    &&& 0 <= i
    &&& i + pattern.len() <= s.len()
    &&& s.subrange(i, i + pattern.len()) == pattern
}

/// Whether `pattern` stands anywhere in `s`.
pub open spec fn is_infix(pattern: Seq<char>, s: Seq<char>) -> bool {
    exists|i: int| occurs_at(s, pattern, i)
}

/// The least position of `pattern` in `s` that is not before `start`.
pub open spec fn first_from(s: Seq<char>, pattern: Seq<char>, start: int) -> Option<int>
    decreases s.len() + 1 - start,
{
    if start + pattern.len() > s.len() {
        None
    } else if occurs_at(s, pattern, start) {
        Some(start)
    } else {
        first_from(s, pattern, start + 1)
    }
}

/// What `first_from` finds is the least occurrence, and it finds nothing only where there is none.
pub proof fn lemma_first_from(s: Seq<char>, pattern: Seq<char>, start: int)
    requires
        0 <= start,
    ensures
        match first_from(s, pattern, start) {
            Some(i) => {
                &&& start <= i
                &&& occurs_at(s, pattern, i)
                &&& forall|j: int| start <= j < i ==> !occurs_at(s, pattern, j)
            },
            None => forall|j: int| start <= j ==> !occurs_at(s, pattern, j),
        },
    decreases s.len() + 1 - start,
{
    if start + pattern.len() > s.len() {
    } else if occurs_at(s, pattern, start) {
    } else {
        lemma_first_from(s, pattern, start + 1);
    }
}

/// The characters of a string.
pub fn chars_of(s: &str) -> (r: Vec<char>)
    ensures
        r@ == s@,
{
    let mut r: Vec<char> = Vec::new();
    for c in it: s.chars()
        invariant
            r@ == it.seq().take(it.index() as int),
            it.seq() == s@,
    {
        r.push(c);
        assert(it.seq().take(it.index() + 1) =~= it.seq().take(it.index() as int).push(c));
    }
    assert(s@.take(s@.len() as int) =~= s@);
    r
}

/// The string made of the characters `from..to`.
pub fn string_of(chars: &Vec<char>, from: usize, to: usize) -> (r: String)
    requires
        from <= to <= chars@.len(),
    ensures
        r@ == chars@.subrange(from as int, to as int),
{
    let mut r: String = String::new();
    let mut i: usize = from;
    while i < to
        invariant
            from <= i <= to <= chars@.len(),
            r@ == chars@.subrange(from as int, i as int),
        decreases to - i,
    {
        r.push(chars[i]);
        assert(chars@.subrange(from as int, i + 1) =~= chars@.subrange(from as int, i as int).push(
            chars@[i as int],
        ));
        i = i + 1;
    }
    r
}

/// Whether `pattern` stands in `s` at position `i`.
pub fn matches_at(s: &Vec<char>, pattern: &Vec<char>, i: usize) -> (r: bool)
    requires
        i + pattern@.len() <= s@.len(),
    ensures
        r == occurs_at(s@, pattern@, i as int),
{
    let n: usize = s.len();
    let mut k: usize = 0;
    while k < pattern.len()
        invariant
            n == s@.len(),
            k <= pattern@.len(),
            i + pattern@.len() <= s@.len(),
            forall|j: int| 0 <= j < k ==> s@[i + j] == pattern@[j],
        decreases pattern@.len() - k,
    {
        if s[i + k] != pattern[k] {
            assert(s@.subrange(i as int, i + pattern@.len())[k as int] != pattern@[k as int]);
            return false;
        }
        k = k + 1;
    }
    assert(s@.subrange(i as int, i + pattern@.len()) =~= pattern@);
    true
}

/// The position of the first occurrence of `pattern` at or after `start`.
pub fn find_from(s: &Vec<char>, pattern: &Vec<char>, start: usize) -> (r: Option<usize>)
    ensures
        match r {
            Some(i) => first_from(s@, pattern@, start as int) == Some(i as int),
            None => first_from(s@, pattern@, start as int) is None,
        },
{
    let n: usize = s.len();
    let m: usize = pattern.len();
    let mut i: usize = start;
    while i <= n && m <= n - i
        invariant
            n == s@.len(),
            m == pattern@.len(),
            first_from(s@, pattern@, start as int) == first_from(s@, pattern@, i as int),
        decreases n + 1 - i,
    {
        if matches_at(s, pattern, i) {
            return Some(i);
        }
        assert(m > 0) by {
            if m == 0 {
                assert(s@.subrange(i as int, i as int) =~= pattern@);
            }
        }
        i = i + 1;
    }
    None
}

/// Whether `a` and `b` are the same text.
pub fn same_text(a: &str, b: &str) -> (r: bool)
    ensures
        r == (a@ == b@),
{
    let x: Vec<char> = chars_of(a);
    let y: Vec<char> = chars_of(b);
    assert(x@.subrange(0, x@.len() as int) =~= x@);
    x.len() == y.len() && matches_at(&x, &y, 0)
}

/// Whether `text` contains `term`.
pub fn contains(text: &str, term: &str) -> (r: bool)
    ensures
        r == is_infix(term@, text@),
{
    let s: Vec<char> = chars_of(text);
    let pattern: Vec<char> = chars_of(term);
    proof {
        lemma_first_from(s@, pattern@, 0);
    }
    find_from(&s, &pattern, 0).is_some()
}

/// The pieces of `s` from `start` on, cut at every occurrence of `pattern` taken from the left.
pub open spec fn split_from(s: Seq<char>, pattern: Seq<char>, start: int) -> Seq<Seq<char>>
    decreases s.len() + 1 - start,
    when 0 <= start <= s.len() && pattern.len() > 0
{
    proof {
        lemma_first_from(s, pattern, start);
    }
    match first_from(s, pattern, start) {
        None => seq![s.skip(start)],
        Some(i) => seq![s.subrange(start, i)] + split_from(s, pattern, i + pattern.len()),
    }
}

/// The pieces of `s` between the occurrences of `pattern`.
pub open spec fn split(s: Seq<char>, pattern: Seq<char>) -> Seq<Seq<char>> {
    split_from(s, pattern, 0)
}

/// Cuts `text` at every occurrence of `separator`.
pub fn split_text(text: &str, separator: &str) -> (r: Vec<String>)
    requires
        separator@.len() > 0,
    ensures
        views(r@) == split(text@, separator@),
{
    let s: Vec<char> = chars_of(text);
    let pattern: Vec<char> = chars_of(separator);
    let n: usize = s.len();
    let mut r: Vec<String> = Vec::new();
    let mut start: usize = 0;
    assert(views(r@) =~= Seq::<Seq<char>>::empty());
    loop
        invariant
            s@ == text@,
            pattern@ == separator@,
            pattern@.len() > 0,
            n == s@.len(),
            start <= s@.len(),
            split(s@, pattern@) == views(r@) + split_from(s@, pattern@, start as int),
        ensures
            first_from(s@, pattern@, start as int) is None,
        decreases s@.len() - start,
    {
        let i: usize = match find_from(&s, &pattern, start) {
            Some(i) => i,
            None => {
                break;
            },
        };
        proof {
            lemma_first_from(s@, pattern@, start as int);
        }
        let piece: String = string_of(&s, start, i);
        proof {
            lemma_views_push(r@, piece);
        }
        let ghost before = views(r@);
        r.push(piece);
        start = i + pattern.len();
        assert(before + (seq![piece@] + split_from(s@, pattern@, start as int)) =~= views(r@)
            + split_from(s@, pattern@, start as int));
    }
    let piece: String = string_of(&s, start, n);
    proof {
        lemma_views_push(r@, piece);
        assert(s@.skip(start as int) =~= piece@);
        assert(views(r@) + seq![piece@] =~= views(r@).push(piece@));
    }
    r.push(piece);
    r
}

/// A line without the carriage return at its end.
pub open spec fn without_return(line: Seq<char>) -> Seq<char> {
    if line.len() > 0 && line.last() == '\r' {
        line.drop_last()
    } else {
        line
    }
}

/// The lines of `s`: what stands before each line feed, without a carriage return at its end, and
/// what follows the last line feed, unless it is empty.
pub open spec fn text_lines(s: Seq<char>) -> Seq<Seq<char>> {
    let pieces = split(s, "\n"@);
    let ended = pieces.drop_last().map_values(|line: Seq<char>| without_return(line));
    if pieces.last().len() == 0 {
        ended
    } else {
        ended.push(pieces.last())
    }
}

/// The lines of `text`.
pub fn lines(text: &str) -> (r: Vec<String>)
    ensures
        views(r@) == text_lines(text@),
{
    proof {
        reveal_strlit("\n");
        lemma_split_not_empty(text@, "\n"@, 0);
    }
    let pieces: Vec<String> = split_text(text, "\n");
    let ghost all = views(pieces@);
    assert(all.len() == pieces@.len());
    let n: usize = pieces.len() - 1;
    let ghost ended = all.drop_last().map_values(|line: Seq<char>| without_return(line));
    let mut r: Vec<String> = Vec::new();
    let mut i: usize = 0;
    assert(views(r@) =~= ended.take(0));
    while i < n
        invariant
            i <= n,
            n + 1 == pieces@.len(),
            all == views(pieces@),
            n == ended.len(),
            forall|j: int| 0 <= j < n ==> #[trigger] ended[j] == without_return(all[j]),
            views(r@) == ended.take(i as int),
        decreases n - i,
    {
        let piece: &str = pieces[i].as_str();
        let len: usize = piece.unicode_len();
        let line: String = if len > 0 && piece.get_char(len - 1) == '\r' {
            let line: String = piece.substring_char(0, len - 1).to_string();
            assert(line@ =~= piece@.drop_last());
            line
        } else {
            piece.to_string()
        };
        proof {
            lemma_views_push(r@, line);
            assert(ended[i as int] == without_return(all[i as int]));
            lemma_take_next(ended, i as int);
        }
        r.push(line);
        i = i + 1;
    }
    assert(ended.take(n as int) =~= ended);
    if pieces[n].as_str().unicode_len() > 0 {
        let line: String = pieces[n].clone();
        proof {
            lemma_views_push(r@, line);
        }
        r.push(line);
    }
    r
}

proof fn lemma_split_not_empty(s: Seq<char>, pattern: Seq<char>, start: int)
    requires
        0 <= start <= s.len(),
        pattern.len() > 0,
    ensures
        split_from(s, pattern, start).len() > 0,
{
    lemma_first_from(s, pattern, start);
}

/// How often `pattern` occurs in `s` from `start` on, occurrences being taken from the left and
/// not overlapping.
pub open spec fn count_from(s: Seq<char>, pattern: Seq<char>, start: int) -> nat
    decreases s.len() + 1 - start,
    when 0 <= start <= s.len() && pattern.len() > 0
{
    proof {
        lemma_first_from(s, pattern, start);
    }
    match first_from(s, pattern, start) {
        None => 0,
        Some(i) => 1 + count_from(s, pattern, i + pattern.len()),
    }
}

/// How often `pattern` occurs in `s` without overlapping.
pub open spec fn count(s: Seq<char>, pattern: Seq<char>) -> nat {
    count_from(s, pattern, 0)
}

/// There are no more occurrences than characters.
pub proof fn lemma_count_bounded(s: Seq<char>, pattern: Seq<char>, start: int)
    requires
        0 <= start <= s.len(),
        pattern.len() > 0,
    ensures
        count_from(s, pattern, start) <= s.len() - start,
    decreases s.len() - start,
{
    lemma_first_from(s, pattern, start);
    if let Some(i) = first_from(s, pattern, start) {
        lemma_count_bounded(s, pattern, i + pattern.len());
    }
}

/// Counts the occurrences of `term` in `text`.
pub fn count_matches(text: &str, term: &str) -> (r: usize)
    requires
        term@.len() > 0,
    ensures
        r == count(text@, term@),
        r <= text@.len(),
{
    let s: Vec<char> = chars_of(text);
    let pattern: Vec<char> = chars_of(term);
    let n: usize = s.len();
    let mut found: usize = 0;
    let mut start: usize = 0;
    loop
        invariant
            s@ == text@,
            pattern@ == term@,
            pattern@.len() > 0,
            n == s@.len(),
            found <= start <= s@.len(),
            count(s@, pattern@) == found + count_from(s@, pattern@, start as int),
        ensures
            first_from(s@, pattern@, start as int) is None,
        decreases s@.len() - start,
    {
        let i: usize = match find_from(&s, &pattern, start) {
            Some(i) => i,
            None => {
                break;
            },
        };
        proof {
            lemma_first_from(s@, pattern@, start as int);
        }
        found = found + 1;
        start = i + pattern.len();
    }
    found
}

/// `s` from `start` on, with every occurrence of `pattern` taken from the left put as `with`.
pub open spec fn replaced_from(
    s: Seq<char>,
    pattern: Seq<char>,
    with: Seq<char>,
    start: int,
) -> Seq<char>
    decreases s.len() + 1 - start,
    when 0 <= start <= s.len() && pattern.len() > 0
{
    proof {
        lemma_first_from(s, pattern, start);
    }
    match first_from(s, pattern, start) {
        None => s.skip(start),
        Some(i) => s.subrange(start, i) + with + replaced_from(
            s,
            pattern,
            with,
            i + pattern.len(),
        ),
    }
}

/// `s` with every occurrence of `pattern` put as `with`.
pub open spec fn replaced(s: Seq<char>, pattern: Seq<char>, with: Seq<char>) -> Seq<char> {
    replaced_from(s, pattern, with, 0)
}

/// Puts `with` for every occurrence of `term` in `text`.
pub fn replace_text(text: &str, term: &str, with: &str) -> (r: String)
    requires
        term@.len() > 0,
    ensures
        r@ == replaced(text@, term@, with@),
{
    let s: Vec<char> = chars_of(text);
    let pattern: Vec<char> = chars_of(term);
    let n: usize = s.len();
    let mut r: String = String::new();
    let mut start: usize = 0;
    assert(r@ + replaced_from(s@, pattern@, with@, 0) =~= replaced_from(s@, pattern@, with@, 0));
    loop
        invariant
            s@ == text@,
            pattern@ == term@,
            pattern@.len() > 0,
            n == s@.len(),
            start <= s@.len(),
            replaced(s@, pattern@, with@) == r@ + replaced_from(
                s@,
                pattern@,
                with@,
                start as int,
            ),
        ensures
            first_from(s@, pattern@, start as int) is None,
        decreases s@.len() - start,
    {
        let i: usize = match find_from(&s, &pattern, start) {
            Some(i) => i,
            None => {
                break;
            },
        };
        proof {
            lemma_first_from(s@, pattern@, start as int);
        }
        let ghost before = r@;
        let piece: String = string_of(&s, start, i);
        r.append(piece.as_str());
        r.append(with);
        start = i + pattern.len();
        assert(before + (piece@ + with@ + replaced_from(s@, pattern@, with@, start as int))
            =~= r@ + replaced_from(s@, pattern@, with@, start as int));
    }
    let piece: String = string_of(&s, start, n);
    assert(s@.skip(start as int) =~= piece@);
    r.append(piece.as_str());
    r
}

/// The characters that Unicode marks as white space.
pub open spec fn is_space(c: char) -> bool {
    ||| '\u{9}' <= c <= '\u{d}'
    ||| c == ' '
    ||| c == '\u{85}'
    ||| c == '\u{a0}'
    ||| c == '\u{1680}'
    ||| '\u{2000}' <= c <= '\u{200a}'
    ||| c == '\u{2028}'
    ||| c == '\u{2029}'
    ||| c == '\u{202f}'
    ||| c == '\u{205f}'
    ||| c == '\u{3000}'
}

/// Whether `c` is white space.
pub fn is_whitespace(c: char) -> (r: bool)
    ensures
        r == is_space(c),
{
    ('\u{9}' <= c && c <= '\u{d}') || c == ' ' || c == '\u{85}' || c == '\u{a0}' || c == '\u{1680}'
        || ('\u{2000}' <= c && c <= '\u{200a}') || c == '\u{2028}' || c == '\u{2029}' || c
        == '\u{202f}' || c == '\u{205f}' || c == '\u{3000}'
}

/// `s` without the white space at its start.
pub open spec fn trimmed_start(s: Seq<char>) -> Seq<char>
    decreases s.len(),
{
    if s.len() > 0 && is_space(s.first()) {
        trimmed_start(s.drop_first())
    } else {
        s
    }
}

/// `s` without the white space at its end.
pub open spec fn trimmed_end(s: Seq<char>) -> Seq<char>
    decreases s.len(),
{
    if s.len() > 0 && is_space(s.last()) {
        trimmed_end(s.drop_last())
    } else {
        s
    }
}

/// `s` without the white space at its two ends.
pub open spec fn trimmed(s: Seq<char>) -> Seq<char> {
    trimmed_end(trimmed_start(s))
}

/// The position of the first character at or after `from` that is no white space.
pub fn skip_whitespace(s: &Vec<char>, from: usize) -> (r: usize)
    requires
        from <= s@.len(),
    ensures
        from <= r <= s@.len(),
        s@.skip(r as int) == trimmed_start(s@.skip(from as int)),
{
    let mut i: usize = from;
    while i < s.len() && is_whitespace(s[i])
        invariant
            from <= i <= s@.len(),
            trimmed_start(s@.skip(i as int)) == trimmed_start(s@.skip(from as int)),
        decreases s@.len() - i,
    {
        assert(s@.skip(i as int).drop_first() =~= s@.skip(i + 1));
        i = i + 1;
    }
    i
}

/// `text` without the white space at its two ends.
pub fn trim(text: &str) -> (r: String)
    ensures
        r@ == trimmed(text@),
{
    let s: Vec<char> = chars_of(text);
    let start: usize = skip_whitespace(&s, 0);
    assert(s@.skip(0) =~= s@);
    let mut end: usize = s.len();
    assert(s@.subrange(start as int, end as int) =~= s@.skip(start as int));
    while end > start && is_whitespace(s[end - 1])
        invariant
            start <= end <= s@.len(),
            trimmed_end(s@.subrange(start as int, end as int)) == trimmed_end(
                s@.skip(start as int),
            ),
        decreases end,
    {
        assert(s@.subrange(start as int, end as int).drop_last() =~= s@.subrange(
            start as int,
            end - 1,
        ));
        end = end - 1;
    }
    string_of(&s, start, end)
}

/// The first `n` characters of `s`, or all of them where there are fewer.
pub open spec fn prefix(s: Seq<char>, n: nat) -> Seq<char> {
    if s.len() <= n {
        s
    } else {
        s.take(n as int)
    }
}

/// The first `n` characters of `text`.
pub fn take_chars(text: &str, n: usize) -> (r: String)
    ensures
        r@ == prefix(text@, n as nat),
{
    let s: Vec<char> = chars_of(text);
    let end: usize = if s.len() <= n {
        s.len()
    } else {
        n
    };
    assert(s@.subrange(0, end as int) =~= prefix(s@, n as nat));
    string_of(&s, 0, end)
}

/// The pieces one after the other with `separator` between them.
pub open spec fn joined(pieces: Seq<Seq<char>>, separator: Seq<char>) -> Seq<char>
    decreases pieces.len(),
{
    if pieces.len() == 0 {
        Seq::empty()
    } else if pieces.len() == 1 {
        pieces[0]
    } else {
        joined(pieces.drop_last(), separator) + separator + pieces.last()
    }
}

/// Joins `pieces` with `separator` between them.
pub fn join(pieces: &Vec<String>, separator: &str) -> (r: String)
    ensures
        r@ == joined(views(pieces@), separator@),
{
    let mut r: String = String::new();
    let mut i: usize = 0;
    while i < pieces.len()
        invariant
            i <= pieces@.len(),
            r@ == joined(views(pieces@.take(i as int)), separator@),
        decreases pieces@.len() - i,
    {
        let ghost shorter = views(pieces@.take(i as int));
        let ghost longer = views(pieces@.take(i + 1));
        assert(longer.drop_last() =~= shorter);
        assert(longer.last() == pieces@[i as int]@);
        if i > 0 {
            r.append(separator);
        }
        r.append(pieces[i].as_str());
        assert(i == 0 ==> Seq::<char>::empty() + pieces@[0]@ =~= pieces@[0]@);
        i = i + 1;
    }
    assert(pieces@.take(i as int) =~= pieces@);
    r
}

/// The path `name` below `base`; a path from the root stands for itself.
pub open spec fn path_join(base: Seq<char>, name: Seq<char>) -> Seq<char> {
    if name.len() > 0 && name[0] == '/' {
        name
    } else if base.len() == 0 || base.last() == '/' {
        base + name
    } else {
        base + seq!['/'] + name
    }
}

/// Makes the path `name` below `base`.
pub fn join_path(base: &str, name: &str) -> (r: String)
    ensures
        r@ == path_join(base@, name@),
{
    if name.unicode_len() > 0 && name.get_char(0) == '/' {
        return name.to_string();
    }
    let mut r: String = base.to_string();
    let n: usize = base.unicode_len();
    if n > 0 && base.get_char(n - 1) != '/' {
        r.push('/');
        assert(r@ =~= base@ + seq!['/']);
    }
    r.append(name);
    r
}

/// The decimal digit of value `d`.
pub open spec fn digit(d: nat) -> char {
    if d == 0 {
        '0'
    } else if d == 1 {
        '1'
    } else if d == 2 {
        '2'
    } else if d == 3 {
        '3'
    } else if d == 4 {
        '4'
    } else if d == 5 {
        '5'
    } else if d == 6 {
        '6'
    } else if d == 7 {
        '7'
    } else if d == 8 {
        '8'
    } else if d == 9 {
        '9'
    } else if d == 10 {
        'a'
    } else if d == 11 {
        'b'
    } else if d == 12 {
        'c'
    } else if d == 13 {
        'd'
    } else if d == 14 {
        'e'
    } else {
        'f'
    }
}

fn digit_char(d: u64) -> (r: char)
    requires
        d < 16,
    ensures
        r == digit(d as nat),
{
    match d {
        0 => '0',
        1 => '1',
        2 => '2',
        3 => '3',
        4 => '4',
        5 => '5',
        6 => '6',
        7 => '7',
        8 => '8',
        9 => '9',
        10 => 'a',
        11 => 'b',
        12 => 'c',
        13 => 'd',
        14 => 'e',
        _ => 'f',
    }
}

/// The last `width` digits of `n` in `base`.
pub open spec fn digits(n: nat, base: nat, width: nat) -> Seq<char>
    decreases width,
{
    if width == 0 {
        Seq::empty()
    } else {
        digits(n / base, base, (width - 1) as nat).push(digit(n % base))
    }
}

/// `n` in decimal, without leading zeros.
pub open spec fn decimal(n: nat) -> Seq<char>
    decreases n,
{
    if n < 10 {
        seq![digit(n)]
    } else {
        decimal(n / 10).push(digit(n % 10))
    }
}

/// `n` in decimal, with leading zeros up to `width` digits.
pub open spec fn padded(n: nat, width: nat) -> Seq<char> {
    let d = decimal(n);
    if d.len() >= width {
        d
    } else {
        Seq::new((width - d.len()) as nat, |i: int| '0') + d
    }
}

/// Writes `n` in decimal.
pub fn decimal_text(n: u64) -> (r: String)
    ensures
        r@ == decimal(n as nat),
    decreases n,
{
    if n < 10 {
        let mut r: String = String::new();
        r.push(digit_char(n));
        assert(r@ =~= seq![digit(n as nat)]);
        r
    } else {
        let mut r: String = decimal_text(n / 10);
        r.push(digit_char(n % 10));
        r
    }
}

/// Writes `n` in decimal with leading zeros up to `width` digits.
pub fn padded_text(n: u64, width: usize) -> (r: String)
    ensures
        r@ == padded(n as nat, width as nat),
{
    let text: String = decimal_text(n);
    let len: usize = text.as_str().unicode_len();
    if len >= width {
        return text;
    }
    let zeros: usize = width - len;
    let mut r: String = String::new();
    let mut i: usize = 0;
    while i < zeros
        invariant
            i <= zeros,
            r@ == Seq::new(i as nat, |k: int| '0'),
        decreases zeros - i,
    {
        r.push('0');
        i = i + 1;
        assert(r@ =~= Seq::new(i as nat, |k: int| '0'));
    }
    r.append(text.as_str());
    r
}

/// Writes `n` as sixteen lower-case hexadecimal digits.
pub fn hex16(n: u64) -> (r: String)
    ensures
        r@ == digits(n as nat, 16, 16),
{
    hex_digits(n, 16)
}

fn hex_digits(n: u64, width: u64) -> (r: String)
    ensures
        r@ == digits(n as nat, 16, width as nat),
    decreases width,
{
    if width == 0 {
        String::new()
    } else {
        let mut r: String = hex_digits(n / 16, width - 1);
        r.push(digit_char(n % 16));
        r
    }
}

/// Whether `a` stands before `b`: at the first position where they differ it has the smaller
/// character, or it is a proper prefix.
pub open spec fn text_lt(a: Seq<char>, b: Seq<char>) -> bool
    decreases a.len(),
{
    if b.len() == 0 {
        false
    } else if a.len() == 0 {
        true
    } else if a[0] != b[0] {
        a[0] < b[0]
    } else {
        text_lt(a.drop_first(), b.drop_first())
    }
}

/// No text stands before itself.
pub proof fn lemma_text_lt_irreflexive(a: Seq<char>)
    ensures
        !text_lt(a, a),
    decreases a.len(),
{
    if a.len() > 0 {
        lemma_text_lt_irreflexive(a.drop_first());
    }
}

/// The order is transitive.
pub proof fn lemma_text_lt_transitive(a: Seq<char>, b: Seq<char>, c: Seq<char>)
    requires
        text_lt(a, b),
        text_lt(b, c),
    ensures
        text_lt(a, c),
    decreases a.len(),
{
    if a.len() > 0 && a[0] == b[0] && b[0] == c[0] {
        lemma_text_lt_transitive(a.drop_first(), b.drop_first(), c.drop_first());
    }
}

/// Of two different texts one stands before the other.
pub proof fn lemma_text_lt_total(a: Seq<char>, b: Seq<char>)
    ensures
        a == b || text_lt(a, b) || text_lt(b, a),
    decreases a.len(),
{
    if a.len() > 0 && b.len() > 0 {
        if a[0] == b[0] {
            lemma_text_lt_total(a.drop_first(), b.drop_first());
            if a.drop_first() == b.drop_first() {
                assert(a =~= seq![a[0]] + a.drop_first());
                assert(b =~= seq![b[0]] + b.drop_first());
            }
        }
    } else if a.len() == 0 && b.len() == 0 {
        assert(a =~= b);
    }
}

/// Whether `a` stands before `b`.
pub fn text_before(a: &str, b: &str) -> (r: bool)
    ensures
        r == text_lt(a@, b@),
{
    let x: Vec<char> = chars_of(a);
    let y: Vec<char> = chars_of(b);
    let mut i: usize = 0;
    assert(x@.skip(0) =~= x@);
    assert(y@.skip(0) =~= y@);
    while i < x.len() && i < y.len()
        invariant
            x@ == a@,
            y@ == b@,
            i <= x@.len(),
            i <= y@.len(),
            text_lt(a@, b@) == text_lt(x@.skip(i as int), y@.skip(i as int)),
        decreases x@.len() - i,
    {
        assert(x@.skip(i as int).drop_first() =~= x@.skip(i + 1));
        assert(y@.skip(i as int).drop_first() =~= y@.skip(i + 1));
        if x[i] != y[i] {
            return x[i] < y[i];
        }
        i = i + 1;
    }
    i < y.len()
}

} // verus!
