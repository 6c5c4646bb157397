//! What is stored of a file and what is checked out of it, from the first question
//! that a strategy is asked to the bytes that are written.
use vstd::math::min;
use vstd::prelude::*;

use crate::eol::{
    converted, snapshot_step, snapshot_target_eol, update_step, update_target_eol,
    EolConversionSettings, TargetEol, TargetEolStep,
};
use crate::git::{
    attributes_supported, git_snapshot_step, git_snapshot_target_eol, git_update_step,
    git_update_target_eol, native_eol, AutoCrlf,
};
use crate::git_attributes::StateView;
use crate::probe::probed_binary;
use crate::text::split_lines;

use super::{
    checkout, law_lines_kept, law_no_crlf_after_lf, law_only_crlf_after_crlf,
    law_probe_sees_the_start, snapshot,
};

verus! {

/// The file after its target EOL was found: at once, or by `decide` from its
/// first bytes.
pub open spec fn processed(
    file: Seq<u8>,
    step: TargetEolStep,
    decide: spec_fn(Seq<u8>) -> TargetEol,
) -> Seq<u8> {
    match step {
        TargetEolStep::Decided(target_eol) => converted(file, target_eol),
        TargetEolStep::Probe { limit } => converted(
            file,
            decide(file.take(min(file.len() as int, limit as int))),
        ),
    }
}

/// What is stored of a file under a setting.
pub open spec fn stored_file(settings: EolConversionSettings, file: Seq<u8>) -> Seq<u8> {
    processed(
        file,
        snapshot_step(settings),
        |start: Seq<u8>| snapshot_target_eol(settings, start),
    )
}

/// What is written to disk of a stored file under a setting.
pub open spec fn checked_out_file(settings: EolConversionSettings, file: Seq<u8>) -> Seq<u8> {
    processed(file, update_step(settings), |start: Seq<u8>| update_target_eol(settings, start))
}

/// What is stored of a file under a state of `core.autocrlf`.
pub open spec fn git_stored_file(auto_crlf: Option<AutoCrlf>, file: Seq<u8>) -> Seq<u8> {
    processed(
        file,
        git_snapshot_step(auto_crlf),
        |start: Seq<u8>| git_snapshot_target_eol(auto_crlf, Some(start)),
    )
}

/// What is written to disk of a stored file whose `text` attribute has this state,
/// under a state of `core.autocrlf`.
pub open spec fn git_checked_out_file(
    text: Option<StateView>,
    auto_crlf: Option<AutoCrlf>,
    windows: bool,
    file: Seq<u8>,
) -> Seq<u8> {
    processed(
        file,
        git_update_step(text, auto_crlf, windows),
        |start: Seq<u8>| git_update_target_eol(auto_crlf, Some(start)),
    )
}

/// What is seen of a file is enough to tell whether it is binary.
proof fn lemma_start_tells(file: Seq<u8>)
    ensures
        probed_binary(file.take(min(file.len() as int, 8192))) == probed_binary(file),
{
    let n = min(file.len() as int, 8192);
    assert(file =~= file.take(n) + file.skip(n));
    if file.len() < 8192 {
        assert(file.take(n) =~= file);
    } else {
        law_probe_sees_the_start(file.take(n), file.skip(n));
    }
}

/// Under the setting for input and output, a text is checked out with CRLF,
/// wherever in it the line terminators are and whether or not it ends in one:
/// every line feed follows a carriage return, and the lines are those that were
/// stored.
pub proof fn law_checkout_of_text(file: Seq<u8>)
    requires
        !probed_binary(file),
    ensures
        update_target_eol(EolConversionSettings::InputOutput, file) == TargetEol::Crlf,
        checked_out_file(EolConversionSettings::InputOutput, file) == converted(
            file,
            TargetEol::Crlf,
        ),
        ({
            let disk = checked_out_file(EolConversionSettings::InputOutput, file);
            &&& disk == checkout(EolConversionSettings::InputOutput, file)
            &&& split_lines(disk) == split_lines(file)
            &&& forall|i: int|
                0 <= i < disk.len() && #[trigger] disk[i] == 10 ==> i > 0 && disk[i - 1] == 13
        }),
{
    lemma_start_tells(file);
    law_only_crlf_after_crlf(file);
    law_lines_kept(file, TargetEol::Crlf);
}

/// Under a setting that converts input, a text is stored with LF: a line feed
/// follows a carriage return only where the file had two of them before it. Where
/// it had none such, the lines are those of the file.
pub proof fn law_snapshot_of_text(settings: EolConversionSettings, file: Seq<u8>)
    requires
        settings == EolConversionSettings::Input || settings == EolConversionSettings::InputOutput,
        !probed_binary(file),
    ensures
        snapshot_target_eol(settings, file) == TargetEol::Lf,
        stored_file(settings, file) == converted(file, TargetEol::Lf),
        stored_file(settings, file) == snapshot(settings, file),
        (forall|i: int|
            0 <= i && i + 2 < file.len() && #[trigger] file[i] == 13 && file[i + 1] == 13 ==> file[i
                + 2] != 10) ==> {
            let stored = stored_file(settings, file);
            &&& split_lines(stored) == split_lines(file)
            &&& forall|i: int|
                0 <= i && i + 1 < stored.len() && #[trigger] stored[i] == 13 ==> stored[i + 1] != 10
        },
{
    lemma_start_tells(file);
    lemma_lf_outcome(file);
}

proof fn lemma_lf_outcome(file: Seq<u8>)
    ensures
        (forall|i: int|
            0 <= i && i + 2 < file.len() && #[trigger] file[i] == 13 && file[i + 1] == 13 ==> file[i
                + 2] != 10) ==> {
            let out = converted(file, TargetEol::Lf);
            &&& split_lines(out) == split_lines(file)
            &&& forall|i: int|
                0 <= i && i + 1 < out.len() && #[trigger] out[i] == 13 ==> out[i + 1] != 10
        },
{
    if forall|i: int|
        0 <= i && i + 2 < file.len() && #[trigger] file[i] == 13 && file[i + 1] == 13 ==> file[i
            + 2] != 10 {
        let out = converted(file, TargetEol::Lf);
        assert(!crate::text::contains_cr_crlf(file));
        law_no_crlf_after_lf(file);
        law_lines_kept(file, TargetEol::Lf);
        assert forall|i: int|
            0 <= i && i + 1 < out.len() && #[trigger] out[i] == 13 implies out[i + 1] != 10 by {
            assert(!crate::text::is_crlf_at(out, i));
        }
    }
}

/// What is not converted is stored and checked out as it is: binary files under
/// any setting, every file under the setting for no conversion, and every file on
/// its way out under the setting for input alone.
pub proof fn law_untouched(settings: EolConversionSettings, file: Seq<u8>)
    ensures
        settings == EolConversionSettings::NoConversion || probed_binary(file) ==> {
            &&& snapshot_target_eol(settings, file) == TargetEol::PassThrough
            &&& stored_file(settings, file) == file
        },
        settings != EolConversionSettings::InputOutput || probed_binary(file) ==> {
            &&& update_target_eol(settings, file) == TargetEol::PassThrough
            &&& checked_out_file(settings, file) == file
        },
{
    lemma_start_tells(file);
}

/// A file is looked at only where its content matters, and then its first 8192
/// bytes are asked for, whichever strategy asks.
pub proof fn law_when_probed(
    settings: EolConversionSettings,
    text: Option<StateView>,
    auto_crlf: Option<AutoCrlf>,
    windows: bool,
)
    ensures
        snapshot_step(settings) is Probe <==> settings != EolConversionSettings::NoConversion,
        update_step(settings) is Probe <==> settings == EolConversionSettings::InputOutput,
        git_snapshot_step(auto_crlf) is Probe <==> auto_crlf == Some(AutoCrlf::Enabled)
            || auto_crlf == Some(AutoCrlf::Input),
        git_update_step(text, auto_crlf, windows) is Probe <==> text != Some(StateView::IsSet)
            && auto_crlf == Some(AutoCrlf::Enabled),
        snapshot_step(settings) matches TargetEolStep::Probe { limit } ==> limit == 8192,
        update_step(settings) matches TargetEolStep::Probe { limit } ==> limit == 8192,
        git_snapshot_step(auto_crlf) matches TargetEolStep::Probe { limit } ==> limit == 8192,
        git_update_step(text, auto_crlf, windows) matches TargetEolStep::Probe { limit } ==> limit
            == 8192,
{
}

/// A file whose `text` attribute is set is checked out with the line terminator
/// of the platform: `core.autocrlf` has no say there, nor has what the file holds.
pub proof fn law_checkout_of_set_text(
    auto_crlf: Option<AutoCrlf>,
    other: Option<AutoCrlf>,
    windows: bool,
    file: Seq<u8>,
)
    ensures
        git_update_step(Some(StateView::IsSet), auto_crlf, windows) == git_update_step(
            Some(StateView::IsSet),
            other,
            windows,
        ),
        git_update_step(Some(StateView::IsSet), auto_crlf, true) == TargetEolStep::Decided(
            TargetEol::Crlf,
        ),
        git_update_step(Some(StateView::IsSet), auto_crlf, false) == TargetEolStep::Decided(
            TargetEol::Lf,
        ),
        native_eol(true) == TargetEol::Crlf,
        native_eol(false) == TargetEol::Lf,
        ({
            let disk = git_checked_out_file(Some(StateView::IsSet), auto_crlf, true, file);
            &&& disk == converted(file, TargetEol::Crlf)
            &&& split_lines(disk) == split_lines(file)
            &&& forall|i: int|
                0 <= i < disk.len() && #[trigger] disk[i] == 10 ==> i > 0 && disk[i - 1] == 13
        }),
        git_checked_out_file(Some(StateView::IsSet), auto_crlf, false, file) == converted(
            file,
            TargetEol::Lf,
        ),
{
    law_only_crlf_after_crlf(file);
    law_lines_kept(file, TargetEol::Crlf);
}

/// A file whose `text` attribute is not given or unspecified is checked out by
/// `core.autocrlf`, whatever the platform: with CRLF if that is true and the file
/// is a text, and else as it is stored.
pub proof fn law_checkout_of_unspecified_text(
    text: Option<StateView>,
    auto_crlf: Option<AutoCrlf>,
    windows: bool,
    file: Seq<u8>,
)
    requires
        text is None || text == Some(StateView::Unspecified),
    ensures
        git_update_step(text, auto_crlf, windows) == git_update_step(None, auto_crlf, !windows),
        git_checked_out_file(text, auto_crlf, windows, file) == (if auto_crlf == Some(
            AutoCrlf::Enabled,
        ) && !probed_binary(file) {
            converted(file, TargetEol::Crlf)
        } else {
            file
        }),
        git_update_target_eol(auto_crlf, Some(file)) == TargetEol::Crlf <==> auto_crlf == Some(
            AutoCrlf::Enabled,
        ) && !probed_binary(file),
        git_update_target_eol(auto_crlf, Some(file)) != TargetEol::Lf,
        git_update_target_eol(auto_crlf, None) == TargetEol::PassThrough,
{
    lemma_start_tells(file);
}

/// Under Git's strategy a text is stored with LF if `core.autocrlf` is true or
/// `input`, and every other file as it is.
pub proof fn law_git_snapshot(auto_crlf: Option<AutoCrlf>, file: Seq<u8>)
    ensures
        git_stored_file(auto_crlf, file) == (if (auto_crlf == Some(AutoCrlf::Enabled) || auto_crlf
            == Some(AutoCrlf::Input)) && !probed_binary(file) {
            converted(file, TargetEol::Lf)
        } else {
            file
        }),
        git_snapshot_target_eol(auto_crlf, Some(file)) == TargetEol::Lf <==> (auto_crlf == Some(
            AutoCrlf::Enabled,
        ) || auto_crlf == Some(AutoCrlf::Input)) && !probed_binary(file),
        git_snapshot_target_eol(auto_crlf, Some(file)) != TargetEol::Crlf,
        git_snapshot_target_eol(auto_crlf, None) == TargetEol::PassThrough,
{
    lemma_start_tells(file);
}

/// The attributes have a meaning if `text` is not given or unspecified, whatever
/// `eol` is, and if `text` is set and `eol` is not given; they have none if `text`
/// is unset or has a value.
pub proof fn law_supported_attributes(
    eol: Option<StateView>,
    given: StateView,
    value: Seq<u8>,
)
    ensures
        attributes_supported(None, eol),
        attributes_supported(Some(StateView::Unspecified), eol),
        attributes_supported(Some(StateView::IsSet), None),
        !attributes_supported(Some(StateView::IsSet), Some(given)),
        !attributes_supported(Some(StateView::Unset), eol),
        !attributes_supported(Some(StateView::Value(value)), eol),
{
}

} // verus!
