//! Text as bytes: line terminators, lines, and the replacement of every line
//! terminator by another one.
use vstd::prelude::*;

verus! {

/// Carriage return.
pub const CR: u8 = 13;

/// Line feed.
pub const LF: u8 = 10;

/// The length of the line terminator that `s` starts with: `\r\n` and `\n` are
/// line terminators, a `\r` alone is not.
pub open spec fn terminator_len(s: Seq<u8>) -> int {
    if s.len() >= 1 && s[0] == LF {
        1
    } else if s.len() >= 2 && s[0] == CR && s[1] == LF {
        2
    } else {
        0
    }
}

/// `s` with every line terminator replaced by `eol`.
pub open spec fn replace_eols(s: Seq<u8>, eol: Seq<u8>) -> Seq<u8>
    decreases s.len(),
{
    if s.len() == 0 {
        s
    } else if terminator_len(s) > 0 {
        eol + replace_eols(s.skip(terminator_len(s)), eol)
    } else {
        seq![s[0]] + replace_eols(s.skip(1), eol)
    }
}

/// The length of the first line of `s`, with its terminator.
pub open spec fn first_line_len(s: Seq<u8>) -> int
    decreases s.len(),
{
    if s.len() == 0 {
        0
    } else if s[0] == LF {
        1
    } else {
        1 + first_line_len(s.skip(1))
    }
}

/// `line` without the terminator that it ends in, if it ends in one.
pub open spec fn trim_terminator(line: Seq<u8>) -> Seq<u8> {
    if line.len() >= 2 && line.last() == LF && line[line.len() - 2] == CR {
        line.take(line.len() - 2)
    } else if line.len() >= 1 && line.last() == LF {
        line.drop_last()
    } else {
        line
    }
}

/// The lines of `s`, without their terminators.
pub open spec fn split_lines(s: Seq<u8>) -> Seq<Seq<u8>>
    decreases s.len(),
    via split_lines_decreases
{
    if s.len() == 0 {
        Seq::empty()
    } else {
        seq![trim_terminator(s.take(first_line_len(s)))] + split_lines(s.skip(first_line_len(s)))
    }
}

#[via_fn]
proof fn split_lines_decreases(s: Seq<u8>) {
    lemma_first_line_len(s);
}

/// A line is not empty, ends at the first line feed, and only the last one may
/// end without one.
pub(crate) proof fn lemma_first_line_len(s: Seq<u8>)
    ensures
        0 <= first_line_len(s) <= s.len(),
        s.len() > 0 ==> first_line_len(s) > 0,
        first_line_len(s) < s.len() ==> s[first_line_len(s) - 1] == LF,
        forall|i: int| 0 <= i < first_line_len(s) - 1 ==> s[i] != LF,
    decreases s.len(),
{
    if s.len() > 0 && s[0] != LF {
        lemma_first_line_len(s.skip(1));
        assert forall|i: int| 0 <= i < first_line_len(s) - 1 implies s[i] != LF by {
            if i > 0 {
                assert(s.skip(1)[i - 1] == s[i]);
            }
        }
    }
}

/// Only the empty text has no line.
pub(crate) proof fn lemma_split_lines_empty(s: Seq<u8>)
    ensures
        split_lines(s).len() == 0 <==> s.len() == 0,
{
}

/// The replacement works line by line.
pub(crate) proof fn lemma_replace_eols_first_line(s: Seq<u8>, eol: Seq<u8>)
    requires
        s.len() > 0,
    ensures
        ({
            let n = first_line_len(s);
            replace_eols(s, eol) == trim_terminator(s.take(n)) + (if s[n - 1] == LF {
                eol
            } else {
                Seq::empty()
            }) + replace_eols(s.skip(n), eol)
        }),
    decreases s.len(),
{
    let n = first_line_len(s);
    lemma_first_line_len(s);
    if terminator_len(s) == 1 {
        assert(trim_terminator(s.take(1)) =~= Seq::empty());
    } else if terminator_len(s) == 2 {
        assert(s.skip(1)[0] == LF);
        assert(n == 2) by {
            reveal_with_fuel(first_line_len, 3);
        }
        assert(trim_terminator(s.take(2)) =~= Seq::empty());
    } else {
        let t = s.skip(1);
        if t.len() == 0 {
            assert(n == 1) by {
                reveal_with_fuel(first_line_len, 2);
            }
            assert(s.take(1) =~= s);
            assert(s.skip(1) =~= Seq::empty());
            assert(replace_eols(s, eol) =~= s) by {
                reveal_with_fuel(replace_eols, 2);
            }
        } else {
            lemma_first_line_len(t);
            lemma_replace_eols_first_line(t, eol);
            let m = first_line_len(t);
            assert(n == m + 1);
            assert(t.skip(m) =~= s.skip(n));
            assert(t[m - 1] == s[n - 1]);
            assert(s.take(n) =~= seq![s[0]] + t.take(m));
            assert(trim_terminator(s.take(n)) =~= seq![s[0]] + trim_terminator(t.take(m)));
        }
    }
}

/// Whether `s` has a carriage return before a `\r\n` at `i`.
pub open spec fn is_cr_crlf_at(s: Seq<u8>, i: int) -> bool {
    0 <= i && i + 2 < s.len() && s[i] == CR && s[i + 1] == CR && s[i + 2] == LF
}

/// Whether `s` has a carriage return before a `\r\n` anywhere.
pub open spec fn contains_cr_crlf(s: Seq<u8>) -> bool {
    exists|i: int| is_cr_crlf_at(s, i)
}

/// A text has a carriage return before a `\r\n` at its start or after its first
/// byte.
pub(crate) proof fn lemma_cr_crlf_skip(s: Seq<u8>)
    requires
        s.len() > 0,
    ensures
        contains_cr_crlf(s) <==> is_cr_crlf_at(s, 0) || contains_cr_crlf(s.skip(1)),
        terminator_len(s) > 0 ==> (contains_cr_crlf(s) <==> contains_cr_crlf(
            s.skip(terminator_len(s)),
        )),
{
    assert forall|i: int, n: int| n >= 0 && n <= s.len() && #[trigger] is_cr_crlf_at(
        s.skip(n),
        i,
    ) implies is_cr_crlf_at(s, i + n) by {}
    if contains_cr_crlf(s) {
        let i = choose|i: int| is_cr_crlf_at(s, i);
        if i >= 1 {
            assert(is_cr_crlf_at(s.skip(1), i - 1));
        }
        if i >= 2 {
            assert(is_cr_crlf_at(s.skip(2), i - 2));
        }
    }
}

/// Whether `s` has a `\r\n` at `i`.
pub open spec fn is_crlf_at(s: Seq<u8>, i: int) -> bool {
    0 <= i && i + 1 < s.len() && s[i] == CR && s[i + 1] == LF
}

/// Whether `s` has a `\r\n` anywhere.
pub open spec fn contains_crlf(s: Seq<u8>) -> bool {
    exists|i: int| is_crlf_at(s, i)
}

/// A text has a `\r\n` at its start or after its first byte.
pub(crate) proof fn lemma_crlf_skip(s: Seq<u8>)
    requires
        s.len() > 0,
    ensures
        contains_crlf(s) <==> is_crlf_at(s, 0) || contains_crlf(s.skip(1)),
{
    assert forall|i: int| #[trigger] is_crlf_at(s.skip(1), i) implies is_crlf_at(s, i + 1) by {}
    if contains_crlf(s) {
        let i = choose|i: int| is_crlf_at(s, i);
        if i >= 1 {
            assert(is_crlf_at(s.skip(1), i - 1));
        }
    }
}

} // verus!
