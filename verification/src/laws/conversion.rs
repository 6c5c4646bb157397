//! What a conversion makes of a text, line by line.
use vstd::prelude::*;

use crate::eol::{converted, TargetEol};
use crate::text::{
    first_line_len, lemma_first_line_len, lemma_replace_eols_first_line, lemma_split_lines_empty,
    split_lines, trim_terminator,
};

use super::lemma_first_line_of;

verus! {

/// A conversion goes line by line: a line that ends in `\r\n` or `\n` is followed
/// by the target EOL, and what comes after it is converted by itself. A carriage
/// return before a `\n` alone would make that a `\r\n`.
pub proof fn law_convert_line(body: Seq<u8>, crlf: bool, rest: Seq<u8>, target_eol: TargetEol)
    requires
        forall|i: int| 0 <= i < body.len() ==> body[i] != 10,
        !crlf ==> body.len() == 0 || body.last() != 13,
    ensures
        ({
            let terminator = if crlf {
                seq![13u8, 10u8]
            } else {
                seq![10u8]
            };
            converted(body + terminator + rest, target_eol) == body + (match target_eol {
                TargetEol::Crlf => seq![13u8, 10u8],
                TargetEol::Lf => seq![10u8],
                TargetEol::PassThrough => terminator,
            }) + converted(rest, target_eol)
        }),
{
    let terminator = if crlf {
        seq![13u8, 10u8]
    } else {
        seq![10u8]
    };
    let s = body + terminator + rest;
    let n = (body.len() + terminator.len()) as int;
    if target_eol != TargetEol::PassThrough {
        let eol = if target_eol == TargetEol::Crlf {
            seq![13u8, 10u8]
        } else {
            seq![10u8]
        };
        lemma_first_line_of(body, terminator, rest);
        lemma_replace_eols_first_line(s, eol);
        assert(trim_terminator(s.take(n)) =~= body);
        assert(s.skip(n) =~= rest);
        assert(s[n - 1] == 10);
    }
}

/// Without a conversion, a text stays as it is.
pub proof fn law_pass_through(content: Seq<u8>)
    ensures
        converted(content, TargetEol::PassThrough) == content,
{
}

/// The lines of a text are what stands between its line terminators: `\r\n` and
/// `\n` end a line, and what follows the last of them is a line if it is not
/// empty.
pub proof fn law_split_line(body: Seq<u8>, rest: Seq<u8>)
    requires
        forall|i: int| 0 <= i < body.len() ==> body[i] != 10,
    ensures
        split_lines(body + seq![13u8, 10u8] + rest) == seq![body] + split_lines(rest),
        body.len() == 0 || body.last() != 13 ==> split_lines(body + seq![10u8] + rest) == seq![body]
            + split_lines(rest),
        body.len() > 0 ==> split_lines(body) == seq![body],
        split_lines(Seq::<u8>::empty()) == Seq::<Seq<u8>>::empty(),
{
    lemma_split_off(body, seq![13u8, 10u8], rest);
    if body.len() == 0 || body.last() != 13 {
        lemma_split_off(body, seq![10u8], rest);
    }
    if body.len() > 0 {
        let n = first_line_len(body);
        lemma_first_line_len(body);
        if n < body.len() {
            assert(body[n - 1] == 10);
        }
        assert(body.take(n) =~= body);
        assert(trim_terminator(body) =~= body);
        assert(body.skip(n) =~= Seq::empty());
        lemma_split_lines_empty(body.skip(n));
        assert(split_lines(body) =~= seq![body]);
    }
}

proof fn lemma_split_off(body: Seq<u8>, terminator: Seq<u8>, rest: Seq<u8>)
    requires
        forall|i: int| 0 <= i < body.len() ==> body[i] != 10,
        terminator == seq![13u8, 10u8] || terminator == seq![10u8] && (body.len() == 0
            || body.last() != 13),
    ensures
        split_lines(body + terminator + rest) == seq![body] + split_lines(rest),
{
    let s = body + terminator + rest;
    let n = (body.len() + terminator.len()) as int;
    lemma_first_line_of(body, terminator, rest);
    assert(trim_terminator(s.take(n)) =~= body);
    assert(s.skip(n) =~= rest);
}

} // verus!
