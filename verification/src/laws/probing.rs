//! Which files are taken for binary, by their bytes.
use vstd::math::min;
use vstd::prelude::*;

use crate::probe::{
    count_positions, lone_cr_count, non_printable_count, null_count, printable_count, probe_window,
    probed_binary,
};

verus! {

/// Counting the positions whose byte has a property is counting the bytes.
proof fn lemma_count_bytes(s: Seq<u8>, p: spec_fn(Seq<u8>) -> bool, of_byte: spec_fn(u8) -> bool)
    requires
        forall|t: Seq<u8>| t.len() > 0 ==> #[trigger] p(t) == of_byte(t[0]),
    ensures
        count_positions(s, p) == s.filter(of_byte).len(),
    decreases s.len(),
{
    reveal(Seq::filter);
    if s.len() > 0 {
        let first = seq![s[0]];
        lemma_count_bytes(s.skip(1), p, of_byte);
        assert(s =~= first + s.skip(1));
        Seq::filter_distributes_over_add(first, s.skip(1), of_byte);
        assert(first.drop_last() =~= Seq::empty());
        reveal_with_fuel(Seq::filter, 2);
        assert(first.filter(of_byte).len() == (if of_byte(s[0]) {
            1nat
        } else {
            0nat
        }));
    }
}

/// There is a position with a property if and only if there are any to count.
proof fn lemma_count_any(s: Seq<u8>, p: spec_fn(Seq<u8>) -> bool)
    ensures
        count_positions(s, p) > 0 <==> exists|i: int| 0 <= i < s.len() && p(#[trigger] s.skip(i)),
    decreases s.len(),
{
    if s.len() > 0 {
        let t = s.skip(1);
        lemma_count_any(t, p);
        assert(s.skip(0) =~= s);
        if p(s) {
            assert(p(s.skip(0)));
        } else if count_positions(s, p) > 0 {
            let i = choose|i: int| 0 <= i < t.len() && p(#[trigger] t.skip(i));
            assert(t.skip(i) =~= s.skip(i + 1));
            assert(p(s.skip(i + 1)));
        } else if exists|i: int| 0 <= i < s.len() && p(#[trigger] s.skip(i)) {
            let i = choose|i: int| 0 <= i < s.len() && p(#[trigger] s.skip(i));
            assert(t.skip(i - 1) =~= s.skip(i));
            assert(p(t.skip(i - 1)));
        }
    }
}

/// A file is taken for binary if and only if its first 8192 bytes have a null
/// byte, a carriage return that no line feed follows there, or more bytes that
/// cannot be printed than one for each 128 that can. Backspace, tab, form feed,
/// escape, and all from the space on but delete can be printed; carriage returns
/// and line feeds count as neither.
pub proof fn law_binary_by_bytes(
    content: Seq<u8>,
    can_print: spec_fn(u8) -> bool,
    cannot_print: spec_fn(u8) -> bool,
)
    requires
        forall|b: u8| #[trigger]
            can_print(b) <==> b == 8 || b == 9 || b == 12 || b == 27 || 32 <= b <= 126 || 128 <= b,
        forall|b: u8| #[trigger]
            cannot_print(b) <==> b <= 7 || b == 11 || 14 <= b <= 26 || 28 <= b <= 31 || b == 127,
    ensures
        ({
            let seen = content.take(min(content.len() as int, 8192));
            probed_binary(content) <==> {
                ||| exists|i: int| 0 <= i < seen.len() && #[trigger] seen[i] == 0
                ||| exists|i: int|
                    0 <= i < seen.len() && #[trigger] seen[i] == 13 && !(i + 1 < seen.len() && seen[i
                        + 1] == 10)
                ||| seen.filter(can_print).len() < 128 * seen.filter(cannot_print).len()
            }
        }),
{
    let seen = content.take(min(content.len() as int, 8192));
    assert(probe_window(content) =~= seen);
    lemma_nulls(seen);
    lemma_lone_crs(seen);
    let p = |t: Seq<u8>| crate::probe::is_printable(t[0]);
    let q = |t: Seq<u8>|
        t[0] != crate::text::CR && t[0] != crate::text::LF && !crate::probe::is_printable(t[0]);
    lemma_count_bytes(seen, p, can_print);
    lemma_count_bytes(seen, q, cannot_print);
    assert(printable_count(seen) == seen.filter(can_print).len());
    assert(non_printable_count(seen) == seen.filter(cannot_print).len());
    let (m, n) = (printable_count(seen), non_printable_count(seen));
    assert(m / 128 < n <==> m < 128 * n);
}

proof fn lemma_nulls(s: Seq<u8>)
    ensures
        null_count(s) > 0 <==> exists|i: int| 0 <= i < s.len() && #[trigger] s[i] == 0,
{
    let p = |t: Seq<u8>| t[0] == 0;
    lemma_count_any(s, p);
    if exists|i: int| 0 <= i < s.len() && #[trigger] s[i] == 0 {
        let i = choose|i: int| 0 <= i < s.len() && #[trigger] s[i] == 0;
        assert(p(s.skip(i)));
    }
}

proof fn lemma_lone_crs(s: Seq<u8>)
    ensures
        lone_cr_count(s) > 0 <==> exists|i: int|
            0 <= i < s.len() && #[trigger] s[i] == 13 && !(i + 1 < s.len() && s[i + 1] == 10),
{
    let p = |t: Seq<u8>| t[0] == crate::text::CR && crate::text::terminator_len(t) == 0;
    lemma_count_any(s, p);
    if exists|i: int|
        0 <= i < s.len() && #[trigger] s[i] == 13 && !(i + 1 < s.len() && s[i + 1] == 10) {
        let i = choose|i: int|
            0 <= i < s.len() && #[trigger] s[i] == 13 && !(i + 1 < s.len() && s[i + 1] == 10);
        assert(p(s.skip(i)));
    }
    if lone_cr_count(s) > 0 {
        let i = choose|i: int| 0 <= i < s.len() && p(#[trigger] s.skip(i));
        assert(s[i] == s.skip(i)[0]);
        if i + 1 < s.len() {
            assert(s[i + 1] == s.skip(i)[1]);
        }
    }
}

/// A text is never taken for binary, however long it is: one whose first 8192
/// bytes can all be printed, or are part of a `\n` or `\r\n`.
pub proof fn law_plain_text_is_text(content: Seq<u8>)
    requires
        forall|i: int|
            0 <= i < content.len() && i < 8192 ==> {
                let b = #[trigger] content[i];
                ||| b == 8 || b == 9 || b == 12 || b == 27 || 32 <= b <= 126 || 128 <= b
                ||| b == 10
                ||| b == 13 && i + 1 < content.len() && i + 1 < 8192 && content[i + 1] == 10
            },
    ensures
        !probed_binary(content),
{
    let can_print = |b: u8| b == 8 || b == 9 || b == 12 || b == 27 || 32 <= b <= 126 || 128 <= b;
    let cannot_print = |b: u8| b <= 7 || b == 11 || 14 <= b <= 26 || 28 <= b <= 31 || b == 127;
    law_binary_by_bytes(content, can_print, cannot_print);
    let seen = content.take(min(content.len() as int, 8192));
    assert(forall|i: int| 0 <= i < seen.len() ==> #[trigger] seen[i] == content[i]);
    assert forall|i: int| 0 <= i < seen.len() implies !cannot_print(#[trigger] seen[i]) by {}
    lemma_none_left(seen, cannot_print);
}

proof fn lemma_none_left(s: Seq<u8>, p: spec_fn(u8) -> bool)
    requires
        forall|i: int| 0 <= i < s.len() ==> !p(#[trigger] s[i]),
    ensures
        s.filter(p).len() == 0,
    decreases s.len(),
{
    reveal(Seq::filter);
    if s.len() > 0 {
        lemma_none_left(s.drop_last(), p);
    }
}

/// Bytes that can be printed make no file binary: if a file that is probed as a
/// whole is a text, it is one with more of them at its end.
pub proof fn law_more_text_is_text(content: Seq<u8>, more: Seq<u8>)
    requires
        content.len() + more.len() <= 8192,
        forall|i: int| 0 <= i < more.len() ==> 32 <= #[trigger] more[i] <= 126,
        !probed_binary(content),
    ensures
        !probed_binary(content + more),
{
    let can_print = |b: u8| b == 8 || b == 9 || b == 12 || b == 27 || 32 <= b <= 126 || 128 <= b;
    let cannot_print = |b: u8| b <= 7 || b == 11 || 14 <= b <= 26 || 28 <= b <= 31 || b == 127;
    let all = content + more;
    law_binary_by_bytes(content, can_print, cannot_print);
    law_binary_by_bytes(all, can_print, cannot_print);
    assert(content.take(content.len() as int) =~= content);
    assert(all.take(all.len() as int) =~= all);
    Seq::filter_distributes_over_add(content, more, can_print);
    Seq::filter_distributes_over_add(content, more, cannot_print);
    assert forall|i: int| 0 <= i < more.len() implies !cannot_print(#[trigger] more[i]) by {}
    lemma_none_left(more, cannot_print);
    assert forall|i: int| 0 <= i < all.len() implies #[trigger] all[i] != 0 && !(all[i] == 13 && !(i
        + 1 < all.len() && all[i + 1] == 10)) by {
        if i < content.len() {
            assert(content[i] == all[i]);
            if i + 1 < content.len() {
                assert(content[i + 1] == all[i + 1]);
            }
        } else {
            assert(more[i - content.len()] == all[i]);
        }
    }
}

} // verus!
