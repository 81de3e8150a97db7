//! Operations on text that the HTML shell is built from: replacing every
//! occurrence of a pattern, joining lines, and writing a number in decimal.

use vstd::prelude::*;
use vstd::string::{StrSliceExecFns, StringExecFns};

verus! {

/// `text` with every occurrence of `from` replaced by `to`. The occurrences
/// are taken from the left and do not overlap. An empty pattern occurs
/// nowhere.
pub open spec fn replaced(text: Seq<char>, from: Seq<char>, to: Seq<char>) -> Seq<char>
    decreases text.len(),
{
    if from.len() == 0 || text.len() < from.len() {
        text
    } else if text.take(from.len() as int) == from {
        to + replaced(text.skip(from.len() as int), from, to)
    } else {
        seq![text[0]] + replaced(text.skip(1), from, to)
    }
}

/// The lines joined with `separator` between them.
pub open spec fn joined(lines: Seq<Seq<char>>, separator: Seq<char>) -> Seq<char>
    decreases lines.len(),
{
    if lines.len() == 0 {
        Seq::empty()
    } else if lines.len() == 1 {
        lines[0]
    } else {
        joined(lines.drop_last(), separator) + separator + lines.last()
    }
}

/// The text of one decimal digit.
pub open spec fn digit_text(digit: nat) -> Seq<char> {
    if digit == 0 {
        "0"@
    } else if digit == 1 {
        "1"@
    } else if digit == 2 {
        "2"@
    } else if digit == 3 {
        "3"@
    } else if digit == 4 {
        "4"@
    } else if digit == 5 {
        "5"@
    } else if digit == 6 {
        "6"@
    } else if digit == 7 {
        "7"@
    } else if digit == 8 {
        "8"@
    } else {
        "9"@
    }
}

/// The decimal text of a number, without leading zeros.
pub open spec fn decimal(n: nat) -> Seq<char>
    decreases n,
{
    if n < 10 {
        digit_text(n)
    } else {
        decimal(n / 10) + digit_text(n % 10)
    }
}

/// The characters of a string slice.
pub fn chars_of(text: &str) -> (r: Vec<char>)
    ensures
        r@ == text@,
{
    let mut out: Vec<char> = Vec::new();
    for c in it: text.chars()
        invariant
            out@ == it.seq().take(it.index() as int),
            it.seq() == text@,
    {
        out.push(c);
    }
    out
}

/// Whether `pattern` stands in `text` at the index `at`.
fn occurs_at(text: &Vec<char>, pattern: &Vec<char>, at: usize) -> (r: bool)
    requires
        at + pattern.len() <= text.len(),
    ensures
        r == (text@.skip(at as int).take(pattern.len() as int) == pattern@),
{
    let mut j: usize = 0;
    while j < pattern.len()
        invariant
            j <= pattern.len(),
            at + pattern.len() <= text.len(),
            forall|k: int| 0 <= k < j ==> text@[at + k] == pattern@[k],
        decreases pattern.len() - j,
    {
        if text[at + j] != pattern[j] {
            proof {
                let window = text@.skip(at as int).take(pattern.len() as int);
                assert(window[j as int] == text@[at + j]);
            }
            return false;
        }
        j += 1;
    }
    assert(text@.skip(at as int).take(pattern.len() as int) =~= pattern@);
    true
}

/// Replaces every occurrence of `from` in `text` by `to`.
pub fn replace_all(text: &str, from: &str, to: &str) -> (r: String)
    ensures
        r@ == replaced(text@, from@, to@),
{
    let chars = chars_of(text);
    let pattern = chars_of(from);
    let n = chars.len();
    let m = pattern.len();
    if m == 0 || n < m {
        return text.to_owned();
    }
    let mut out = String::new();
    let mut start: usize = 0;
    let mut i: usize = 0;
    proof {
        assert(text@.skip(0) =~= text@);
        assert(out@ + text@.subrange(0, 0) + replaced(text@, from@, to@) =~= replaced(
            text@,
            from@,
            to@,
        ));
    }
    while i <= n - m
        invariant
            chars@ == text@,
            pattern@ == from@,
            n == chars.len(),
            m == pattern.len(),
            0 < m <= n,
            start <= i <= n,
            replaced(text@, from@, to@) == out@ + text@.subrange(start as int, i as int) + replaced(
                text@.skip(i as int),
                from@,
                to@,
            ),
        decreases n - i,
    {
        let ghost rest = text@.skip(i as int);
        if occurs_at(&chars, &pattern, i) {
            let ghost before = out@;
            out.append(text.substring_char(start, i));
            out.append(to);
            proof {
                assert(rest.skip(m as int) =~= text@.skip(i + m));
                assert(text@.subrange(i + m, i + m) =~= Seq::<char>::empty());
                assert(out@ + text@.subrange(i + m, i + m) + replaced(text@.skip(i + m), from@, to@)
                    =~= before + text@.subrange(start as int, i as int) + (to@ + replaced(
                    rest.skip(m as int),
                    from@,
                    to@,
                )));
            }
            i += m;
            start = i;
        } else {
            proof {
                assert(rest.skip(1) =~= text@.skip(i + 1));
                assert(text@.subrange(start as int, i + 1) =~= text@.subrange(
                    start as int,
                    i as int,
                ) + seq![rest[0]]);
                assert(out@ + text@.subrange(start as int, i + 1) + replaced(
                    text@.skip(i + 1),
                    from@,
                    to@,
                ) =~= out@ + text@.subrange(start as int, i as int) + (seq![rest[0]] + replaced(
                    rest.skip(1),
                    from@,
                    to@,
                )));
            }
            i += 1;
        }
    }
    proof {
        assert(text@.skip(i as int).len() < m);
        assert(out@ + text@.subrange(start as int, i as int) + text@.skip(i as int) =~= out@
            + text@.subrange(start as int, n as int));
    }
    out.append(text.substring_char(start, n));
    out
}

/// Joins the lines with `separator` between them.
pub fn join(lines: &Vec<String>, separator: &str) -> (r: String)
    ensures
        r@ == joined(lines.deep_view(), separator@),
{
    let ghost all = lines.deep_view();
    let mut out = String::new();
    let mut i: usize = 0;
    while i < lines.len()
        invariant
            i <= lines.len(),
            all == lines.deep_view(),
            out@ == joined(all.take(i as int), separator@),
        decreases lines.len() - i,
    {
        if i > 0 {
            out.append(separator);
        }
        out.append(lines[i].as_str());
        proof {
            let next = all.take(i + 1);
            assert(next.drop_last() =~= all.take(i as int));
            assert(next.last() == all[i as int]);
            if i == 0 {
                assert(out@ =~= joined(next, separator@));
            }
        }
        i += 1;
    }
    assert(all.take(lines.len() as int) =~= all);
    out
}

/// The text of one decimal digit.
fn digit_str(digit: u16) -> (r: &'static str)
    requires
        digit < 10,
    ensures
        r@ == digit_text(digit as nat),
{
    if digit == 0 {
        "0"
    } else if digit == 1 {
        "1"
    } else if digit == 2 {
        "2"
    } else if digit == 3 {
        "3"
    } else if digit == 4 {
        "4"
    } else if digit == 5 {
        "5"
    } else if digit == 6 {
        "6"
    } else if digit == 7 {
        "7"
    } else if digit == 8 {
        "8"
    } else {
        "9"
    }
}

/// Writes a number in decimal.
pub fn to_decimal(n: u16) -> (r: String)
    ensures
        r@ == decimal(n as nat),
    decreases n,
{
    if n < 10 {
        digit_str(n).to_owned()
    } else {
        let mut out = to_decimal(n / 10);
        out.append(digit_str(n % 10));
        out
    }
}

} // verus!
