//! Laws of text.

use vstd::arithmetic::power::{lemma_pow0, pow};
use vstd::prelude::*;

use crate::text::{
    count, count_from, decimal, digit, digits, first_from, is_infix, joined,
    lemma_first_from, occurs_at, padded, path_join, prefix, replaced, replaced_from, split,
    split_from, text_lines, text_lt, without_return,
};

verus! {

/// The value of a digit.
pub open spec fn digit_value(c: char) -> nat {
    if '0' <= c && c <= '9' {
        (c as nat - '0' as nat) as nat
    } else {
        (c as nat - 'a' as nat + 10) as nat
    }
}

/// The number that digits write.
pub open spec fn numeral(s: Seq<char>, base: nat) -> nat
    decreases s.len(),
{
    if s.len() == 0 {
        0
    } else {
        numeral(s.drop_last(), base) * base + digit_value(s.last())
    }
}

/// So many digits write the remainder of a number by that power of the base.
pub proof fn digits_write_the_number(n: nat, base: nat, width: nat)
    requires
        2 <= base <= 16,
    ensures
        digits(n, base, width).len() == width,
        numeral(digits(n, base, width), base) == n as int % pow(base as int, width),
        forall|i: int|
            0 <= i < width ==> {
                let c = #[trigger] digits(n, base, width)[i];
                '0' <= c <= '9' || 'a' <= c <= 'f'
            },
    decreases width,
{
    if width == 0 {
        lemma_pow0(base as int);
    } else {
        let w = (width - 1) as nat;
        digits_write_the_number(n / base, base, w);
        let s = digits(n, base, width);
        assert(s.drop_last() =~= digits(n / base, base, w));
        let b = base as int;
        let p = pow(b, w);
        vstd::arithmetic::power::lemma_pow_positive(b, w);
        assert(pow(b, width) == b * p) by {
            vstd::arithmetic::power::lemma_pow_adds(b, 1, w);
            vstd::arithmetic::power::lemma_pow1(b);
        }
        assert(digit_value(digit(n % base)) == n % base);
        let m = n as int;
        vstd::arithmetic::div_mod::lemma_mod_breakdown(m, b, p);
        vstd::arithmetic::mul::lemma_mul_is_commutative(b, (m / b) % p);
    }
}

/// A number in decimal has no leading zero, and its digits write it.
pub proof fn decimals_write_the_number(n: nat)
    ensures
        numeral(decimal(n), 10) == n,
        decimal(n).len() > 0,
        n > 0 ==> decimal(n)[0] != '0',
        n == 0 ==> decimal(n) == seq!['0'],
        forall|i: int| 0 <= i < decimal(n).len() ==> '0' <= (#[trigger] decimal(n)[i]) <= '9',
    decreases n,
{
    let s = decimal(n);
    if n < 10 {
        assert(s.drop_last() =~= Seq::empty());
        assert(numeral(s.drop_last(), 10) == 0);
    } else {
        decimals_write_the_number(n / 10);
        assert(s.drop_last() =~= decimal(n / 10));
    }
}

/// A padded number writes the number too, in so many digits at least.
pub proof fn padding_puts_zeros_before(n: nat, width: nat)
    ensures
        padded(n, width).len() >= width,
        padded(n, width).len() >= decimal(n).len(),
        padded(n, width).len() == width || padded(n, width).len() == decimal(n).len(),
        padded(n, width).skip(padded(n, width).len() - decimal(n).len()) == decimal(n),
        forall|i: int|
            0 <= i < padded(n, width).len() - decimal(n).len() ==> #[trigger] padded(n, width)[i]
                == '0',
{
    let d = decimal(n);
    assert(padded(n, width).skip(padded(n, width).len() - d.len()) =~= d);
}

/// A text stands before another exactly when it has the smaller character where they first differ,
/// or when the other goes on where it ends.
pub proof fn texts_are_ordered_by_their_first_difference(a: Seq<char>, b: Seq<char>, at: int)
    requires
        0 <= at <= a.len(),
        at <= b.len(),
        forall|i: int| 0 <= i < at ==> #[trigger] a[i] == b[i],
        at < a.len() && at < b.len() ==> a[at] != b[at],
    ensures
        text_lt(a, b) <==> at < b.len() && (at == a.len() || a[at] < b[at]),
    decreases at,
{
    if at > 0 {
        let x = a.drop_first();
        let y = b.drop_first();
        assert(a[0] == b[0]);
        assert forall|i: int| 0 <= i < at - 1 implies #[trigger] x[i] == y[i] by {
            assert(a[i + 1] == b[i + 1]);
        }
        texts_are_ordered_by_their_first_difference(x, y, at - 1);
    }
}

/// A text contains another exactly when it is made of something, the other and something more.
pub proof fn containing_is_having_around(pattern: Seq<char>, s: Seq<char>)
    ensures
        is_infix(pattern, s) <==> exists|before: Seq<char>, after: Seq<char>|
            s == #[trigger] (before + pattern + after),
{
    if is_infix(pattern, s) {
        let i = choose|i: int| occurs_at(s, pattern, i);
        let before = s.take(i);
        let after = s.skip(i + pattern.len());
        assert(s =~= before + pattern + after);
    }
    if exists|before: Seq<char>, after: Seq<char>| s == #[trigger] (before + pattern + after) {
        let (before, after) = choose|before: Seq<char>, after: Seq<char>|
            s == #[trigger] (before + pattern + after);
        let i = before.len() as int;
        assert(s.subrange(i, i + pattern.len()) =~= pattern);
        assert(occurs_at(s, pattern, i));
    }
}

/// The parts of a joined text stand one after the other, with the separator between them.
pub proof fn joining_puts_the_separator_between(
    a: Seq<Seq<char>>,
    b: Seq<Seq<char>>,
    one: Seq<char>,
    separator: Seq<char>,
)
    requires
        a.len() > 0,
        b.len() > 0,
    ensures
        joined(Seq::empty(), separator) == Seq::<char>::empty(),
        joined(seq![one], separator) == one,
        joined(a + b, separator) == joined(a, separator) + separator + joined(b, separator),
    decreases b.len(),
{
    let whole = a + b;
    assert(whole.drop_last() =~= a + b.drop_last());
    if b.len() == 1 {
        assert(whole.drop_last() =~= a);
    } else {
        joining_puts_the_separator_between(a, b.drop_last(), one, separator);
        assert(joined(whole, separator) =~= joined(a, separator) + separator + joined(
            b,
            separator,
        ));
    }
}

/// A text is cut at the first occurrence of the separator, and the rest of it likewise; where the
/// separator does not occur it stays whole. Occurrences are counted and replaced in the same way.
pub proof fn texts_are_cut_at_the_first_occurrence(
    before: Seq<char>,
    pattern: Seq<char>,
    rest: Seq<char>,
    with: Seq<char>,
)
    requires
        pattern.len() > 0,
        forall|i: int| 0 <= i < before.len() ==> !occurs_at(before + pattern, pattern, i),
    ensures
        split(before + pattern + rest, pattern) == seq![before] + split(rest, pattern),
        count(before + pattern + rest, pattern) == 1 + count(rest, pattern),
        replaced(before + pattern + rest, pattern, with) == before + with + replaced(
            rest,
            pattern,
            with,
        ),
{
    let s = before + pattern + rest;
    let n = before.len() as int;
    let m = pattern.len() as int;
    lemma_first_from(s, pattern, 0);
    assert(s.subrange(n, n + m) =~= pattern);
    assert(occurs_at(s, pattern, n));
    assert(first_from(s, pattern, 0) is Some);
    let i = first_from(s, pattern, 0)->0;
    assert(i <= n);
    if i < n {
        assert((before + pattern).subrange(i, i + m) =~= s.subrange(i, i + m));
        assert(occurs_at(before + pattern, pattern, i));
    }
    assert(s.subrange(0, n) =~= before);
    assert(s.skip(n + m) =~= rest);
    lemma_shifted(s, pattern, with, n + m, n + m);
}

/// A text without the separator stays whole.
pub proof fn texts_without_the_pattern_stay_whole(
    s: Seq<char>,
    pattern: Seq<char>,
    with: Seq<char>,
)
    requires
        pattern.len() > 0,
        !is_infix(pattern, s),
    ensures
        split(s, pattern) == seq![s],
        count(s, pattern) == 0,
        replaced(s, pattern, with) == s,
{
    lemma_first_from(s, pattern, 0);
    assert(s.skip(0) =~= s);
}

proof fn lemma_shifted_first(s: Seq<char>, pattern: Seq<char>, k: int, start: int)
    requires
        0 <= k <= start,
        k <= s.len(),
    ensures
        match first_from(s, pattern, start) {
            None => first_from(s.skip(k), pattern, start - k) is None,
            Some(i) => first_from(s.skip(k), pattern, start - k) == Some(i - k),
        },
    decreases s.len() + 1 - start,
{
    let t = s.skip(k);
    if start + pattern.len() <= s.len() {
        assert(t.subrange(start - k, start - k + pattern.len()) =~= s.subrange(
            start,
            start + pattern.len(),
        ));
        if !occurs_at(s, pattern, start) {
            lemma_shifted_first(s, pattern, k, start + 1);
        }
    }
}

proof fn lemma_shifted(
    s: Seq<char>,
    pattern: Seq<char>,
    with: Seq<char>,
    k: int,
    start: int,
)
    requires
        pattern.len() > 0,
        0 <= k <= start <= s.len(),
    ensures
        split_from(s, pattern, start) == split_from(s.skip(k), pattern, start - k),
        count_from(s, pattern, start) == count_from(s.skip(k), pattern, start - k),
        replaced_from(s, pattern, with, start) == replaced_from(
            s.skip(k),
            pattern,
            with,
            start - k,
        ),
    decreases s.len() + 1 - start,
{
    let t = s.skip(k);
    lemma_shifted_first(s, pattern, k, start);
    lemma_first_from(s, pattern, start);
    match first_from(s, pattern, start) {
        None => {
            assert(s.skip(start) =~= t.skip(start - k));
        },
        Some(i) => {
            assert(s.subrange(start, i) =~= t.subrange(start - k, i - k));
            lemma_shifted(s, pattern, with, k, i + pattern.len());
        },
    }
}

/// The pieces of a text, joined by what it was cut at, are the text.
pub proof fn pieces_join_to_the_text(s: Seq<char>, pattern: Seq<char>)
    requires
        pattern.len() > 0,
    ensures
        joined(split(s, pattern), pattern) == s,
        split(s, pattern).len() == count(s, pattern) + 1,
        forall|i: int|
            0 <= i < split(s, pattern).len() ==> !is_infix(
                pattern,
                #[trigger] split(s, pattern)[i],
            ),
    decreases s.len(),
{
    lemma_first_from(s, pattern, 0);
    match first_from(s, pattern, 0) {
        None => {
            texts_without_the_pattern_stay_whole(s, pattern, pattern);
        },
        Some(i) => {
            let before = s.take(i);
            let rest = s.skip(i + pattern.len());
            assert(s =~= before + pattern + rest);
            assert forall|j: int| 0 <= j < before.len() implies !occurs_at(
                before + pattern,
                pattern,
                j,
            ) by {
                if occurs_at(before + pattern, pattern, j) {
                    assert(s.subrange(j, j + pattern.len()) =~= (before + pattern).subrange(
                        j,
                        j + pattern.len(),
                    ));
                    assert(occurs_at(s, pattern, j));
                }
            }
            texts_are_cut_at_the_first_occurrence(before, pattern, rest, pattern);
            pieces_join_to_the_text(rest, pattern);
            joining_puts_the_separator_between(
                seq![before],
                split(rest, pattern),
                before,
                pattern,
            );
            assert(!is_infix(pattern, before)) by {
                if is_infix(pattern, before) {
                    let j = choose|j: int| occurs_at(before, pattern, j);
                    assert(s.subrange(j, j + pattern.len()) =~= before.subrange(
                        j,
                        j + pattern.len(),
                    ));
                    assert(occurs_at(s, pattern, j));
                }
            }
        },
    }
}

/// A line ends at the first line feed, and a carriage return before that is no part of it; the
/// rest of the text has the other lines.
pub proof fn lines_end_at_line_feeds(line: Seq<char>, ended: Seq<char>, rest: Seq<char>)
    requires
        ended == line.push('\r') || ended == line && (line.len() == 0 || line.last() != '\r'),
        forall|i: int| 0 <= i < ended.len() ==> #[trigger] ended[i] != '\n',
    ensures
        text_lines(ended + seq!['\n'] + rest) == seq![line] + text_lines(rest),
{
    reveal_strlit("\n");
    let feed = "\n"@;
    assert(feed =~= seq!['\n']);
    assert forall|i: int| 0 <= i < ended.len() implies !occurs_at(ended + feed, feed, i) by {
        assert((ended + feed).subrange(i, i + 1)[0] == ended[i]);
        assert(feed[0] == '\n');
    }
    texts_are_cut_at_the_first_occurrence(ended, feed, rest, feed);
    let s = ended + feed + rest;
    let pieces = split(s, feed);
    let others = split(rest, feed);
    pieces_join_to_the_text(rest, feed);
    assert(others.len() > 0);
    assert(pieces.last() == others.last());
    assert(pieces.drop_last() =~= seq![ended] + others.drop_last());
    assert(without_return(ended) =~= line);
    assert(text_lines(s) =~= seq![line] + text_lines(rest));
}

/// A text without a line feed is one line, unless it is empty.
pub proof fn what_follows_the_last_line_feed_is_a_line(s: Seq<char>)
    requires
        forall|i: int| 0 <= i < s.len() ==> #[trigger] s[i] != '\n',
    ensures
        s.len() > 0 ==> text_lines(s) == seq![s],
        s.len() == 0 ==> text_lines(s) == Seq::<Seq<char>>::empty(),
{
    reveal_strlit("\n");
    let feed = "\n"@;
    assert(!is_infix(feed, s)) by {
        if is_infix(feed, s) {
            let i = choose|i: int| occurs_at(s, feed, i);
            assert(s.subrange(i, i + 1)[0] == s[i]);
            assert(feed[0] == '\n');
        }
    }
    texts_without_the_pattern_stay_whole(s, feed, feed);
    assert(text_lines(s) =~= if s.len() > 0 {
        seq![s]
    } else {
        Seq::empty()
    });
}

/// A prefix is the text itself, or so many characters at its start.
pub proof fn prefixes_start_the_text(s: Seq<char>, n: nat)
    ensures
        prefix(s, n).len() == if s.len() < n {
            s.len()
        } else {
            n
        },
        forall|i: int| 0 <= i < prefix(s, n).len() ==> #[trigger] prefix(s, n)[i] == s[i],
{
}

/// A path from the root stands for itself; another stands behind the base, with exactly one stroke
/// between them where the base is not empty and does not end in more.
pub proof fn paths_are_put_below_the_base(base: Seq<char>, name: Seq<char>)
    ensures
        path_join(base, seq!['/'] + name) == seq!['/'] + name,
        name.len() == 0 || name[0] != '/' ==> {
            &&& path_join(Seq::empty(), name) == name
            &&& base.len() > 0 && base.last() != '/' ==> path_join(base, name) == base.push('/')
                + name
            &&& path_join(base.push('/'), name) == base.push('/') + name
        },
{
    assert(Seq::<char>::empty() + name =~= name);
    assert(base + seq!['/'] =~= base.push('/'));
}

} // verus!
