//! What holds of the library as a whole.
use vstd::prelude::*;

use crate::eol::{
    converted, eol_bytes, snapshot_step, snapshot_target_eol, update_step, update_target_eol,
    EolConversionSettings, TargetEol, TargetEolStep,
};
use crate::git::{
    git_snapshot_step, git_snapshot_target_eol, git_update_step, git_update_target_eol,
    root_layers, AutoCrlf,
};
use crate::git_attributes::{
    chained, eol_attribute, eol_lines, first_eol, first_given, first_text, layer_matches,
    line_matches, matches_from_last, matching_lines, text_attribute, GitAttributeLineView, Layer,
    ParsedLineView, StateView,
};
use crate::probe::{
    is_printable, lone_cr_count, looks_binary, non_printable_count, null_count, printable_count,
    probe_window, probed_binary, PROBE_LIMIT,
};
use crate::repo_path::{below, joined, valid_name, valid_path};
use crate::text::{
    contains_cr_crlf, contains_crlf, first_line_len, is_cr_crlf_at, is_crlf_at, lemma_cr_crlf_skip,
    lemma_crlf_skip, lemma_first_line_len, lemma_replace_eols_first_line, replace_eols,
    split_lines, terminator_len, trim_terminator, CR, LF,
};

pub mod attributes;
pub mod config;
pub mod conversion;
pub mod files;
pub mod paths;
pub mod probing;

verus! {

/// Converting to CRLF what has been converted to CRLF changes nothing.
pub proof fn law_crlf_idempotent(content: Seq<u8>)
    ensures
        converted(converted(content, TargetEol::Crlf), TargetEol::Crlf) == converted(
            content,
            TargetEol::Crlf,
        ),
{
    lemma_convert_twice(content, seq![CR, LF], seq![CR, LF]);
}

/// A conversion to CRLF is undone by one to LF: the outcome is that of a
/// conversion to LF alone.
pub proof fn law_lf_after_crlf(content: Seq<u8>)
    ensures
        converted(converted(content, TargetEol::Crlf), TargetEol::Lf) == converted(
            content,
            TargetEol::Lf,
        ),
{
    lemma_convert_twice(content, seq![CR, LF], seq![LF]);
}

/// Putting `second` where `first` has been put is putting `second` at once. A line
/// feed may only be `first` alone where the text has no carriage return before a
/// `\r\n`.
proof fn lemma_convert_twice(s: Seq<u8>, first: Seq<u8>, second: Seq<u8>)
    requires
        first == seq![CR, LF] || first == seq![LF] && !contains_cr_crlf(s),
    ensures
        replace_eols(replace_eols(s, first), second) == replace_eols(s, second),
    decreases s.len(),
{
    let r = replace_eols(s, first);
    if s.len() == 0 {
    } else if terminator_len(s) > 0 {
        let t = s.skip(terminator_len(s));
        let rest = replace_eols(t, first);
        lemma_cr_crlf_skip(s);
        lemma_convert_twice(t, first, second);
        assert(r == first + rest);
        assert(terminator_len(r) == first.len());
        assert(r.skip(first.len() as int) =~= rest);
    } else {
        let t = s.skip(1);
        let rest = replace_eols(t, first);
        lemma_cr_crlf_skip(s);
        lemma_convert_twice(t, first, second);
        assert(r == seq![s[0]] + rest);
        assert(r.skip(1) =~= rest);
        if s[0] == CR && t.len() > 0 {
            if terminator_len(t) > 0 {
                assert(rest[0] == first[0]);
                if terminator_len(t) == 2 && first == seq![LF] {
                    assert(is_cr_crlf_at(s, 0));
                }
            } else {
                assert(rest[0] == t[0]);
            }
        }
        assert(terminator_len(r) == 0);
    }
}

/// Converting to CRLF what has been converted to LF has the outcome of a
/// conversion to CRLF alone, unless the text has a carriage return before a
/// `\r\n`.
pub proof fn law_crlf_after_lf(content: Seq<u8>)
    requires
        !contains_cr_crlf(content),
    ensures
        converted(converted(content, TargetEol::Lf), TargetEol::Crlf) == converted(
            content,
            TargetEol::Crlf,
        ),
{
    lemma_convert_twice(content, seq![LF], seq![CR, LF]);
}

/// Converting to LF what has been converted to LF changes nothing, unless, and
/// only unless, the text has a carriage return before a `\r\n`: the first
/// conversion leaves a `\r\n` there.
pub proof fn law_lf_idempotent(content: Seq<u8>)
    ensures
        converted(converted(content, TargetEol::Lf), TargetEol::Lf) == converted(
            content,
            TargetEol::Lf,
        ) <==> !contains_cr_crlf(content),
{
    if contains_cr_crlf(content) {
        lemma_lf_shrinks(content);
    } else {
        lemma_convert_twice(content, seq![LF], seq![LF]);
    }
}

/// A conversion to LF makes no text longer, and one with a `\r\n` shorter.
proof fn lemma_lf_len(s: Seq<u8>)
    ensures
        replace_eols(s, seq![LF]).len() <= s.len(),
        contains_crlf(s) ==> replace_eols(s, seq![LF]).len() < s.len(),
    decreases s.len(),
{
    if s.len() > 0 {
        lemma_crlf_skip(s);
        if terminator_len(s) > 0 {
            lemma_lf_len(s.skip(terminator_len(s)));
        } else {
            lemma_lf_len(s.skip(1));
        }
    }
}

proof fn lemma_lf_shrinks(s: Seq<u8>)
    requires
        contains_cr_crlf(s),
    ensures
        converted(converted(s, TargetEol::Lf), TargetEol::Lf) != converted(s, TargetEol::Lf),
{
    law_no_crlf_after_lf(s);
    lemma_lf_len(converted(s, TargetEol::Lf));
}

/// After a conversion to LF no `\r\n` is left, unless, and only unless, the text
/// had a carriage return before a `\r\n`.
pub proof fn law_no_crlf_after_lf(content: Seq<u8>)
    ensures
        contains_crlf(converted(content, TargetEol::Lf)) <==> contains_cr_crlf(content),
    decreases content.len(),
{
    let s = content;
    let r = replace_eols(s, seq![LF]);
    if s.len() > 0 {
        lemma_cr_crlf_skip(s);
        lemma_crlf_skip(r);
        if terminator_len(s) > 0 {
            let t = s.skip(terminator_len(s));
            law_no_crlf_after_lf(t);
            assert(r.skip(1) =~= replace_eols(t, seq![LF]));
        } else {
            let t = s.skip(1);
            law_no_crlf_after_lf(t);
            assert(r.skip(1) =~= replace_eols(t, seq![LF]));
            if t.len() > 0 {
                assert(r[1] == replace_eols(t, seq![LF])[0]);
                if terminator_len(t) > 0 {
                    assert(r[1] == LF);
                } else {
                    assert(r[1] == t[0]);
                }
            }
        }
    } else if contains_cr_crlf(s) {
        let i = choose|i: int| is_cr_crlf_at(s, i);
        assert(false);
    } else if contains_crlf(r) {
        let i = choose|i: int| is_crlf_at(r, i);
        assert(false);
    }
}

/// After a conversion to CRLF every line feed follows a carriage return.
pub proof fn law_only_crlf_after_crlf(content: Seq<u8>)
    ensures
        ({
            let r = converted(content, TargetEol::Crlf);
            forall|i: int| 0 <= i < r.len() && #[trigger] r[i] == LF ==> is_crlf_at(r, i - 1)
        }),
    decreases content.len(),
{
    let s = content;
    let r = converted(s, TargetEol::Crlf);
    if s.len() > 0 {
        if terminator_len(s) > 0 {
            let t = s.skip(terminator_len(s));
            let rest = converted(t, TargetEol::Crlf);
            law_only_crlf_after_crlf(t);
            assert(r == seq![CR, LF] + rest);
            assert forall|i: int| 0 <= i < r.len() && #[trigger] r[i] == LF implies is_crlf_at(
                r,
                i - 1,
            ) by {
                if i >= 2 {
                    assert(rest[i - 2] == r[i]);
                    assert(rest[i - 3] == r[i - 1]);
                }
            }
        } else {
            let t = s.skip(1);
            let rest = converted(t, TargetEol::Crlf);
            law_only_crlf_after_crlf(t);
            assert(r == seq![s[0]] + rest);
            assert forall|i: int| 0 <= i < r.len() && #[trigger] r[i] == LF implies is_crlf_at(
                r,
                i - 1,
            ) by {
                if i >= 1 {
                    assert(rest[i - 1] == r[i]);
                    assert(rest[i - 2] == r[i - 1]);
                }
            }
        }
    }
}

/// A conversion neither adds nor takes the line terminator at the end of a text,
/// and makes no text empty.
pub proof fn law_last_eol_kept(content: Seq<u8>, target_eol: TargetEol)
    ensures
        ({
            let r = converted(content, target_eol);
            &&& r.len() == 0 <==> content.len() == 0
            &&& content.len() > 0 ==> (r.last() == LF <==> content.last() == LF)
        }),
    decreases content.len(),
{
    let s = content;
    if target_eol != TargetEol::PassThrough && s.len() > 0 {
        let n = if terminator_len(s) > 0 {
            terminator_len(s)
        } else {
            1
        };
        let t = s.skip(n);
        let rest = converted(t, target_eol);
        let r = converted(s, target_eol);
        law_last_eol_kept(t, target_eol);
        if t.len() > 0 {
            assert(r.last() == rest.last());
            assert(s.last() == t.last());
        } else {
            assert(rest =~= Seq::empty());
            assert(s.last() == s[n - 1]);
        }
    }
}

/// A text without a line feed stays as it is.
pub proof fn law_no_lf_no_change(content: Seq<u8>, target_eol: TargetEol)
    requires
        !content.contains(LF),
    ensures
        converted(content, target_eol) == content,
    decreases content.len(),
{
    if target_eol != TargetEol::PassThrough && content.len() > 0 {
        let t = content.skip(1);
        assert forall|i: int| 0 <= i < content.len() implies content[i] != LF by {
            assert(content.contains(content[i]));
        }
        assert(!t.contains(LF)) by {
            if t.contains(LF) {
                let i = choose|i: int| 0 <= i < t.len() && t[i] == LF;
                assert(content[i + 1] == LF);
            }
        }
        law_no_lf_no_change(t, target_eol);
        assert(converted(content, target_eol) =~= content);
    }
}

/// The first line of a text that starts with `body`, which has no line feed, and
/// a line terminator.
proof fn lemma_first_line_of(body: Seq<u8>, eol: Seq<u8>, rest: Seq<u8>)
    requires
        eol == seq![CR, LF] || eol == seq![LF],
        forall|i: int| 0 <= i < body.len() ==> body[i] != LF,
    ensures
        first_line_len(body + eol + rest) == body.len() + eol.len(),
    decreases body.len(),
{
    let s = body + eol + rest;
    if body.len() > 0 {
        assert(s.skip(1) =~= body.skip(1) + eol + rest);
        lemma_first_line_of(body.skip(1), eol, rest);
    } else if eol == seq![CR, LF] {
        assert(s.skip(1)[0] == LF);
        reveal_with_fuel(first_line_len, 3);
    }
}

/// A conversion leaves the lines as they are, but for one to LF of a text that
/// has a carriage return before a `\r\n`.
pub proof fn law_lines_kept(content: Seq<u8>, target_eol: TargetEol)
    requires
        target_eol != TargetEol::Lf || !contains_cr_crlf(content),
    ensures
        split_lines(converted(content, target_eol)) == split_lines(content),
    decreases content.len(),
{
    let s = content;
    if target_eol != TargetEol::PassThrough && s.len() > 0 {
        let eol = eol_bytes(target_eol);
        let n = first_line_len(s);
        let line = s.take(n);
        let body = trim_terminator(line);
        let t = s.skip(n);
        let rest = replace_eols(t, eol);
        let r = replace_eols(s, eol);
        lemma_first_line_len(s);
        lemma_replace_eols_first_line(s, eol);
        assert(forall|i: int| 0 <= i < body.len() ==> body[i] == s[i]);
        if s[n - 1] == LF {
            assert(forall|i: int| 0 <= i < body.len() ==> body[i] != LF);
            lemma_first_line_of(body, eol, rest);
            assert(r == body + eol + rest);
            if eol == seq![LF] && body.len() > 0 && body.last() == CR {
                assert(is_cr_crlf_at(s, body.len() - 1));
            }
            assert(trim_terminator(r.take(first_line_len(r))) =~= body);
            assert(r.skip(first_line_len(r)) =~= rest);
            assert(!contains_cr_crlf(s) ==> !contains_cr_crlf(t)) by {
                if contains_cr_crlf(t) {
                    let i = choose|i: int| is_cr_crlf_at(t, i);
                    assert(is_cr_crlf_at(s, i + n));
                }
            }
            law_lines_kept(t, target_eol);
        } else {
            assert(t =~= Seq::empty());
            assert(body =~= s);
            assert(r =~= s);
        }
    }
}

proof fn lemma_count_after_first(s: Seq<u8>)
    requires
        s.len() > 0,
    ensures
        null_count(s) == null_count(s.skip(1)) + (if s[0] == 0 {
            1nat
        } else {
            0nat
        }),
        lone_cr_count(s) == lone_cr_count(s.skip(1)) + (if s[0] == CR && terminator_len(s) == 0 {
            1nat
        } else {
            0nat
        }),
        printable_count(s) == printable_count(s.skip(1)) + (if is_printable(s[0]) {
            1nat
        } else {
            0nat
        }),
        non_printable_count(s) == non_printable_count(s.skip(1)) + (if s[0] != CR && s[0] != LF
            && !is_printable(s[0]) {
            1nat
        } else {
            0nat
        }),
{
}

/// A conversion of a text without a lone carriage return changes none of the
/// counts that tell binary files.
proof fn lemma_counts_kept(s: Seq<u8>, target_eol: TargetEol)
    requires
        lone_cr_count(s) == 0,
        target_eol != TargetEol::PassThrough,
    ensures
        lone_cr_count(converted(s, target_eol)) == 0,
        null_count(converted(s, target_eol)) == null_count(s),
        printable_count(converted(s, target_eol)) == printable_count(s),
        non_printable_count(converted(s, target_eol)) == non_printable_count(s),
    decreases s.len(),
{
    let r = converted(s, target_eol);
    if s.len() > 0 {
        lemma_count_after_first(s);
        lemma_count_after_first(r);
        if terminator_len(s) > 0 {
            let t = s.skip(terminator_len(s));
            if terminator_len(s) == 2 {
                lemma_count_after_first(s.skip(1));
                assert(s.skip(1).skip(1) =~= t);
            }
            lemma_counts_kept(t, target_eol);
            if target_eol == TargetEol::Crlf {
                lemma_count_after_first(r.skip(1));
                assert(r.skip(1).skip(1) =~= converted(t, target_eol));
                assert(r.skip(1)[0] == LF);
            } else {
                assert(r.skip(1) =~= converted(t, target_eol));
            }
        } else {
            let t = s.skip(1);
            lemma_counts_kept(t, target_eol);
            assert(r.skip(1) =~= converted(t, target_eol));
        }
    }
}

/// A carriage return before a `\r\n` is a lone one.
proof fn lemma_cr_crlf_is_lone(s: Seq<u8>)
    requires
        lone_cr_count(s) == 0,
    ensures
        !contains_cr_crlf(s),
    decreases s.len(),
{
    if s.len() > 0 {
        lemma_count_after_first(s);
        lemma_cr_crlf_skip(s);
        lemma_cr_crlf_is_lone(s.skip(1));
    }
}

/// Converting a text that does not look binary gives a text that does not look
/// binary.
pub proof fn law_text_stays_text(content: Seq<u8>, target_eol: TargetEol)
    requires
        !looks_binary(content),
    ensures
        !looks_binary(converted(content, target_eol)),
{
    if target_eol != TargetEol::PassThrough {
        lemma_counts_kept(content, target_eol);
    }
}

/// Only the first bytes of a file decide whether it is binary.
pub proof fn law_probe_sees_the_start(content: Seq<u8>, more: Seq<u8>)
    requires
        content.len() >= PROBE_LIMIT,
    ensures
        probed_binary(content + more) == probed_binary(content),
{
    assert(probe_window(content + more) =~= probe_window(content));
}

/// What is stored of a file with this content.
pub open spec fn snapshot(settings: EolConversionSettings, content: Seq<u8>) -> Seq<u8> {
    converted(content, snapshot_target_eol(settings, content))
}

/// What is written to disk of a stored file with this content.
pub open spec fn checkout(settings: EolConversionSettings, content: Seq<u8>) -> Seq<u8> {
    converted(content, update_target_eol(settings, content))
}

/// Under the setting that asks for no conversion, every file is stored and
/// checked out as it is.
pub proof fn law_no_conversion(content: Seq<u8>)
    ensures
        snapshot(EolConversionSettings::NoConversion, content) == content,
        checkout(EolConversionSettings::NoConversion, content) == content,
{
}

/// Under the setting for input alone, every file is checked out as it is stored.
pub proof fn law_input_checks_out_as_stored(content: Seq<u8>)
    ensures
        checkout(EolConversionSettings::Input, content) == content,
{
}

/// Whatever the setting, a binary file is stored and checked out as it is.
pub proof fn law_binary_untouched(settings: EolConversionSettings, content: Seq<u8>)
    requires
        probed_binary(content),
    ensures
        snapshot(settings, content) == content,
        checkout(settings, content) == content,
{
}

/// Both settings that convert store the same content.
pub proof fn law_same_snapshot(content: Seq<u8>)
    ensures
        snapshot(EolConversionSettings::Input, content) == snapshot(
            EolConversionSettings::InputOutput,
            content,
        ),
{
}

/// A text is stored without a `\r\n`, unless, and only unless, it has a carriage
/// return before a `\r\n`, which no text does that is probed as a whole.
pub proof fn law_stored_text_has_no_crlf(settings: EolConversionSettings, content: Seq<u8>)
    requires
        settings != EolConversionSettings::NoConversion,
        !probed_binary(content),
    ensures
        contains_crlf(snapshot(settings, content)) <==> contains_cr_crlf(content),
        content.len() <= PROBE_LIMIT ==> !contains_crlf(snapshot(settings, content)),
{
    law_no_crlf_after_lf(content);
    if content.len() <= PROBE_LIMIT {
        lemma_cr_crlf_is_lone(content);
    }
}

/// Storing what has been stored changes nothing, unless, and only unless, the
/// file and what is stored of it pass for text and the file has a carriage
/// return before a `\r\n`.
pub proof fn law_snapshot_idempotent(settings: EolConversionSettings, content: Seq<u8>)
    ensures
        snapshot(settings, snapshot(settings, content)) == snapshot(settings, content) <==> !(
        settings != EolConversionSettings::NoConversion && !probed_binary(content)
            && !probed_binary(snapshot(settings, content)) && contains_cr_crlf(content)),
        content.len() <= PROBE_LIMIT ==> snapshot(settings, snapshot(settings, content))
            == snapshot(settings, content),
{
    law_lf_idempotent(content);
    if content.len() <= PROBE_LIMIT && !probed_binary(content) {
        lemma_cr_crlf_is_lone(content);
    }
}

/// The working copy is clean after a checkout: a snapshot of what was checked out
/// is what was stored. This holds of every file whose text fits into what is
/// probed with any line terminators.
pub proof fn law_clean_after_checkout(settings: EolConversionSettings, content: Seq<u8>)
    requires
        converted(content, TargetEol::Crlf).len() <= PROBE_LIMIT,
    ensures
        ({
            let stored = snapshot(settings, content);
            snapshot(settings, checkout(settings, stored)) == stored
        }),
{
    lemma_crlf_len(content);
    let stored = snapshot(settings, content);
    law_snapshot_idempotent(settings, content);
    if settings == EolConversionSettings::InputOutput && !probed_binary(content) {
        lemma_cr_crlf_is_lone(content);
        lemma_lf_len(content);
        law_text_stays_text(content, TargetEol::Lf);
        law_text_stays_text(stored, TargetEol::Crlf);
        law_crlf_after_lf(content);
        law_lf_after_crlf(stored);
        lemma_convert_twice(content, seq![LF], seq![LF]);
    }
}

/// A file of any size: the working copy is not clean after a checkout if and only
/// if the file is a text, is stored as a text, and either its checkout passes
/// for text but the file has a carriage return before a `\r\n`, or its checkout
/// was converted but does not pass for text.
pub proof fn law_clean_after_checkout_of_any_size(content: Seq<u8>)
    ensures
        ({
            let settings = EolConversionSettings::InputOutput;
            let stored = snapshot(settings, content);
            let on_disk = checkout(settings, stored);
            snapshot(settings, on_disk) == stored <==> !(!probed_binary(content) && !probed_binary(
                stored,
            ) && (if probed_binary(on_disk) {
                on_disk != stored
            } else {
                contains_cr_crlf(content)
            }))
        }),
{
    let settings = EolConversionSettings::InputOutput;
    let stored = snapshot(settings, content);
    if !probed_binary(content) && !probed_binary(stored) {
        law_lf_after_crlf(stored);
        law_lf_idempotent(content);
    }
}

/// A conversion to CRLF makes no text shorter.
proof fn lemma_crlf_len(s: Seq<u8>)
    ensures
        converted(s, TargetEol::Crlf).len() >= s.len(),
    decreases s.len(),
{
    if s.len() > 0 {
        if terminator_len(s) > 0 {
            lemma_crlf_len(s.skip(terminator_len(s)));
        } else {
            lemma_crlf_len(s.skip(1));
        }
    }
}

/// The setting that has the effect of a state of `core.autocrlf`.
pub open spec fn setting_like(auto_crlf: Option<AutoCrlf>) -> EolConversionSettings {
    match auto_crlf {
        Some(AutoCrlf::Input) => EolConversionSettings::Input,
        Some(AutoCrlf::Enabled) => EolConversionSettings::InputOutput,
        Some(AutoCrlf::Disabled) | None => EolConversionSettings::NoConversion,
    }
}

/// Where no attribute says otherwise, `core.autocrlf` has the effect of the
/// user's setting on every file that can be read.
pub proof fn law_auto_crlf_like_setting(auto_crlf: Option<AutoCrlf>, content: Seq<u8>)
    ensures
        git_snapshot_target_eol(auto_crlf, Some(content)) == snapshot_target_eol(
            setting_like(auto_crlf),
            content,
        ),
        git_update_target_eol(auto_crlf, Some(content)) == update_target_eol(
            setting_like(auto_crlf),
            content,
        ),
{
}

/// A file that Git's strategy cannot read is not converted.
pub proof fn law_unread_untouched(auto_crlf: Option<AutoCrlf>)
    ensures
        git_snapshot_target_eol(auto_crlf, None) == TargetEol::PassThrough,
        git_update_target_eol(auto_crlf, None) == TargetEol::PassThrough,
{
}

/// What is decided without a look at the file is what a look at it would have
/// given, whatever the file holds.
pub proof fn law_decided_like_probed(settings: EolConversionSettings, content: Seq<u8>)
    ensures
        snapshot_step(settings) matches TargetEolStep::Decided(target_eol) ==> target_eol
            == snapshot_target_eol(settings, content),
        update_step(settings) matches TargetEolStep::Decided(target_eol) ==> target_eol
            == update_target_eol(settings, content),
{
}

/// Where no attribute says otherwise, what Git's strategy decides without a look
/// at the file is what a look at it would have given, readable or not.
pub proof fn law_git_decided_like_probed(
    auto_crlf: Option<AutoCrlf>,
    content: Option<Seq<u8>>,
    windows: bool,
)
    ensures
        git_snapshot_step(auto_crlf) matches TargetEolStep::Decided(target_eol) ==> target_eol
            == git_snapshot_target_eol(auto_crlf, content),
        git_update_step(None, auto_crlf, windows) matches TargetEolStep::Decided(target_eol)
            ==> target_eol == git_update_target_eol(auto_crlf, content),
{
}

/// Before any `.gitattributes` file was found, no path has an attribute.
pub proof fn law_no_attributes_at_first(path: Seq<Seq<char>>)
    ensures
        text_attribute(root_layers(), path) is None,
        eol_attribute(root_layers(), path) is None,
{
    let layers = root_layers();
    assert(layers.skip(1) =~= Seq::empty());
    assert(matching_lines(layers.skip(1), path) =~= Seq::empty());
    assert(layer_matches(layers[0], path) =~= Seq::empty());
    assert(matching_lines(layers, path) =~= Seq::empty());
}

/// The lines of a `.gitattributes` file come before those of the directories
/// above, from the last one up, and come for paths in its directory alone.
pub proof fn law_inner_lines_first(
    layers: Seq<Layer>,
    prefix: Seq<Seq<char>>,
    lines: Seq<ParsedLineView>,
    path: Seq<Seq<char>>,
)
    ensures
        matching_lines(chained(layers, prefix, lines), path) == (match below(path, prefix) {
            Some(rest) => matches_from_last(eol_lines(lines), rest),
            None => Seq::empty(),
        }) + matching_lines(layers, path),
{
    let all = chained(layers, prefix, lines);
    if eol_lines(lines).len() == 0 {
        assert((match below(path, prefix) {
            Some(rest) => matches_from_last(eol_lines(lines), rest),
            None => Seq::empty(),
        }) + matching_lines(layers, path) =~= matching_lines(layers, path));
    } else {
        assert(all.skip(1) =~= layers);
    }
}

/// A `.gitattributes` file has no say over paths outside its directory.
pub proof fn law_no_say_outside(
    layers: Seq<Layer>,
    prefix: Seq<Seq<char>>,
    lines: Seq<ParsedLineView>,
    path: Seq<Seq<char>>,
)
    requires
        !prefix.is_prefix_of(path),
    ensures
        text_attribute(chained(layers, prefix, lines), path) == text_attribute(layers, path),
        eol_attribute(chained(layers, prefix, lines), path) == eol_attribute(layers, path),
{
    law_inner_lines_first(layers, prefix, lines, path);
    assert(matching_lines(chained(layers, prefix, lines), path) =~= matching_lines(layers, path));
}

/// What a `.gitattributes` file says of a path in its directory counts, and where
/// it says nothing, what the directories above say.
pub proof fn law_inner_file_counts(
    layers: Seq<Layer>,
    prefix: Seq<Seq<char>>,
    lines: Seq<ParsedLineView>,
    path: Seq<Seq<char>>,
)
    requires
        prefix.is_prefix_of(path),
    ensures
        ({
            let inner = matches_from_last(eol_lines(lines), path.skip(prefix.len() as int));
            &&& text_attribute(chained(layers, prefix, lines), path) == (if first_text(inner) is Some {
                first_text(inner)
            } else {
                text_attribute(layers, path)
            })
            &&& eol_attribute(chained(layers, prefix, lines), path) == (if first_eol(inner) is Some {
                first_eol(inner)
            } else {
                eol_attribute(layers, path)
            })
        }),
{
    let inner = matches_from_last(eol_lines(lines), path.skip(prefix.len() as int));
    let outer = matching_lines(layers, path);
    law_inner_lines_first(layers, prefix, lines, path);
    lemma_first_of_both(inner, outer, |line: GitAttributeLineView| line.text);
    lemma_first_of_both(inner, outer, |line: GitAttributeLineView| line.eol);
}

/// The first state on the lines of `a` and then `b` is the first on `a`, if there
/// is one.
proof fn lemma_first_of_both(
    a: Seq<GitAttributeLineView>,
    b: Seq<GitAttributeLineView>,
    given: spec_fn(GitAttributeLineView) -> Option<StateView>,
)
    ensures
        first_given(a + b, given) == (if first_given(a, given) is Some {
            first_given(a, given)
        } else {
            first_given(b, given)
        }),
    decreases a.len(),
{
    if a.len() == 0 {
        assert(a + b =~= b);
    } else {
        assert((a + b).skip(1) =~= a.skip(1) + b);
        lemma_first_of_both(a.skip(1), b, given);
    }
}

/// Within a `.gitattributes` file, the last line that matches a path decides on
/// the attributes that it mentions, and leaves the others to the lines before.
pub proof fn law_last_line_counts(
    lines: Seq<GitAttributeLineView>,
    line: GitAttributeLineView,
    rest: Seq<Seq<char>>,
)
    requires
        line_matches(line, rest),
    ensures
        line.text is Some ==> first_text(matches_from_last(lines.push(line), rest)) == line.text,
        line.eol is Some ==> first_eol(matches_from_last(lines.push(line), rest)) == line.eol,
        line.text is None ==> first_text(matches_from_last(lines.push(line), rest)) == first_text(
            matches_from_last(lines, rest),
        ),
        line.eol is None ==> first_eol(matches_from_last(lines.push(line), rest)) == first_eol(
            matches_from_last(lines, rest),
        ),
{
    assert(lines.push(line).drop_last() =~= lines);
    let m = matches_from_last(lines.push(line), rest);
    assert(m.skip(1) =~= matches_from_last(lines, rest));
}

/// Two paths with the same text are the same path.
pub proof fn law_text_tells_paths(a: Seq<Seq<char>>, b: Seq<Seq<char>>)
    requires
        valid_path(a),
        valid_path(b),
        joined(a) == joined(b),
    ensures
        a == b,
    decreases a.len(),
{
    lemma_joined_last(a);
    lemma_joined_last(b);
    if a.len() > 0 && b.len() > 0 {
        let text = joined(a);
        let (x, y) = (a.last(), b.last());
        let (p, q) = (before_last(a), before_last(b));
        // The shorter of the two last names comes after a slash, or is all there
        // is; neither can be in the other name.
        assert(text == p + x && text == q + y);
        if x.len() < y.len() {
            assert(p.last() == '/');
            assert(text[p.len() - 1] == y[p.len() - 1 - q.len()]);
            assert(y.contains('/'));
        }
        if y.len() < x.len() {
            assert(q.last() == '/');
            assert(text[q.len() - 1] == x[q.len() - 1 - p.len()]);
            assert(x.contains('/'));
        }
        assert(x =~= text.skip(p.len() as int) && y =~= text.skip(q.len() as int));
        assert(p =~= text.take(p.len() as int) && q =~= text.take(q.len() as int));
        if a.len() > 1 && b.len() > 1 {
            assert(joined(a.drop_last()) =~= p.drop_last());
            assert(joined(b.drop_last()) =~= q.drop_last());
            law_text_tells_paths(a.drop_last(), b.drop_last());
        }
        assert(a =~= a.drop_last().push(x));
        assert(b =~= b.drop_last().push(y));
    } else {
        assert(a =~= b);
    }
}

/// The text of a path up to its last name.
spec fn before_last(path: Seq<Seq<char>>) -> Seq<char> {
    if path.len() <= 1 {
        Seq::empty()
    } else {
        joined(path.drop_last()) + seq!['/']
    }
}

proof fn lemma_joined_last(path: Seq<Seq<char>>)
    requires
        valid_path(path),
    ensures
        path.len() == 0 <==> joined(path).len() == 0,
        path.len() > 0 ==> joined(path) == before_last(path) + path.last(),
        path.len() > 1 ==> before_last(path).last() == '/',
        path.len() <= 1 ==> before_last(path).len() == 0,
        path.len() > 0 ==> valid_name(path.last()) && valid_path(path.drop_last()),
{
    if path.len() == 1 {
        assert(joined(path) =~= before_last(path) + path.last());
    }
    if path.len() > 0 {
        assert(valid_name(path[path.len() - 1]));
    }
}

/// The text of a path below a directory is the text of the directory, a slash,
/// and the text of the rest.
pub proof fn law_text_of_path_below(base: Seq<Seq<char>>, rest: Seq<Seq<char>>)
    requires
        base.len() > 0,
        rest.len() > 0,
    ensures
        joined(base + rest) == joined(base) + seq!['/'] + joined(rest),
    decreases rest.len(),
{
    let path = base + rest;
    assert(path.last() == rest.last());
    if rest.len() == 1 {
        assert(path.drop_last() =~= base);
    } else {
        assert(path.drop_last() =~= base + rest.drop_last());
        law_text_of_path_below(base, rest.drop_last());
        assert(joined(path) =~= joined(base) + seq!['/'] + joined(rest));
    }
}

/// Whether a path is a directory or below it can be told by their texts: that of
/// the path is that of the directory, or goes on after it with a slash. Every
/// path is below the root.
pub proof fn law_below_by_text(path: Seq<Seq<char>>, base: Seq<Seq<char>>)
    requires
        valid_path(path),
        valid_path(base),
    ensures
        below(path, base) is Some <==> base.len() == 0 || joined(path) == joined(base) || (joined(
            base,
        ) + seq!['/']).is_prefix_of(joined(path)),
{
    if base.is_prefix_of(path) && base.len() > 0 {
        let rest = path.skip(base.len() as int);
        assert(path =~= base + rest);
        if rest.len() > 0 {
            law_text_of_path_below(base, rest);
            assert((joined(base) + seq!['/']) =~= joined(path).take(
                joined(base).len() as int + 1,
            ));
        } else {
            assert(path =~= base);
        }
    } else if base.len() > 0 {
        if joined(path) == joined(base) {
            law_text_tells_paths(path, base);
        } else if (joined(base) + seq!['/']).is_prefix_of(joined(path)) {
            let k = joined(base).len() as int;
            assert((joined(base) + seq!['/'])[k] == '/');
            let n = lemma_cut_at_slash(path, k);
            assert(joined(path).take(k) =~= joined(base));
            law_text_tells_paths(path.take(n), base);
        }
    } else {
        assert(base.is_prefix_of(path));
    }
}

/// A slash in the text of a path stands between two of its names.
proof fn lemma_cut_at_slash(path: Seq<Seq<char>>, k: int) -> (n: int)
    requires
        valid_path(path),
        0 <= k < joined(path).len(),
        joined(path)[k] == '/',
    ensures
        0 <= n <= path.len(),
        joined(path.take(n)) == joined(path).take(k),
        valid_path(path.take(n)),
    decreases path.len(),
{
    lemma_joined_last(path);
    let p = before_last(path);
    if k >= p.len() {
        assert(path.last()[k - p.len()] == '/');
        assert(path.last().contains('/'));
        0
    } else {
        let d = path.drop_last();
        if k == joined(d).len() {
            assert(path.take(d.len() as int) =~= d);
            assert(joined(path).take(k) =~= joined(d));
            d.len() as int
        } else {
            assert(joined(d)[k] == '/');
            let n = lemma_cut_at_slash(d, k);
            assert(path.take(n) =~= d.take(n));
            assert(joined(path).take(k) =~= joined(d).take(k));
            n
        }
    }
}

} // verus!
