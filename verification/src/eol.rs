//! The setting that says which files are converted, the target EOL that it
//! gives a file, and the conversion of the file's content.
use vstd::prelude::*;

use crate::plumbing;
use crate::probe::{is_binary, probed_binary, PROBE_LIMIT};
use crate::settings::{ConfigGetError, ConfigValue, UserSettings};
use crate::text::{
    first_line_len, lemma_first_line_len, lemma_replace_eols_first_line, lemma_split_lines_empty,
    replace_eols, split_lines, CR, LF,
};

verus! {

/// The target EOL to convert to.
#[derive(Clone, Copy, Debug, PartialEq, Eq, Structural)]
pub enum TargetEol {
    /// Do not convert EOL.
    PassThrough,
    /// Convert to CRLF (Carriage Return Line Feed, `0x0D 0x0A`, `\r\n`).
    Crlf,
    /// Convert to LF (Line Feed, `0x0A`, `\n`).
    Lf,
}

/// The bytes of the target EOL.
pub open spec fn eol_bytes(target_eol: TargetEol) -> Seq<u8> {
    match target_eol {
        TargetEol::Crlf => seq![CR, LF],
        _ => seq![LF],
    }
}

/// `content` as it is after a conversion to `target_eol`.
pub open spec fn converted(content: Seq<u8>, target_eol: TargetEol) -> Seq<u8> {
    if target_eol == TargetEol::PassThrough {
        content
    } else {
        replace_eols(content, eol_bytes(target_eol))
    }
}

/// Replaces every line terminator of `input` by the target EOL. The caller
/// handles `PassThrough`, which needs no copy.
pub fn convert_eol_inner(input: &[u8], target_eol: TargetEol) -> (res: Vec<u8>)
    requires
        target_eol != TargetEol::PassThrough,
    ensures
        res@ == converted(input@, target_eol),
{
    let crlf: [u8; 2] = [CR, LF];
    let lf: [u8; 1] = [LF];
    let eol: &[u8] = match target_eol {
        TargetEol::Crlf => &crlf,
        _ => &lf,
    };
    let lines = plumbing::lines(input);
    let ends_with_eol: bool = input.len() > 0 && input[input.len() - 1] == LF;
    let mut res: Vec<u8> = Vec::with_capacity(input.len());
    let mut i: usize = 0;
    // What is still to be converted when line `i` comes.
    let ghost mut rest: Seq<u8> = input@;
    proof {
        assert(split_lines(input@).skip(0) =~= split_lines(input@));
    }
    while i < lines.len()
        invariant
            i <= lines@.len(),
            lines@.len() == split_lines(input@).len(),
            forall|k: int|
                0 <= k < lines@.len() ==> (#[trigger] lines@[k])@ == split_lines(input@)[k],
            ends_with_eol == (input@.len() > 0 && input@.last() == LF),
            eol@ == eol_bytes(target_eol),
            rest.len() <= input@.len(),
            rest == input@.skip(input@.len() - rest.len()),
            split_lines(rest) == split_lines(input@).skip(i as int),
            res@ + replace_eols(rest, eol@) == replace_eols(input@, eol@),
        decreases lines.len() - i,
    {
        let ghost n = first_line_len(rest);
        proof {
            lemma_first_line_len(rest);
            lemma_replace_eols_first_line(rest, eol@);
            assert(split_lines(input@)[i as int] == split_lines(rest)[0]);
            assert(split_lines(rest).skip(1) =~= split_lines(rest.skip(n)));
            assert(split_lines(rest).skip(1) =~= split_lines(input@).skip(i + 1));
            lemma_split_lines_empty(rest.skip(n));
            assert(rest.skip(n) =~= input@.skip(input@.len() - (rest.len() - n)));
        }
        res.extend_from_slice(lines[i]);
        if i + 1 < lines.len() || ends_with_eol {
            // A line before the last one ends with an EOL; the last line does
            // only where the input does.
            res.extend_from_slice(eol);
        }
        proof {
            rest = rest.skip(n);
        }
        i += 1;
    }
    proof {
        lemma_split_lines_empty(rest);
        assert(res@ + replace_eols(rest, eol@) =~= res@);
    }
    res
}

/// An error of this module: a message, and the error that it came from.
#[derive(Debug)]
pub struct EolError {
    pub message: String,
    pub source: Option<Box<ErrorSource>>,
}

/// Where an error of this module came from.
#[derive(Debug)]
pub enum ErrorSource {
    /// Reading failed.
    Io(std::io::Error),
    /// The store could not hand the file out; this is what it said.
    Store(String),
    /// The setting could not be read.
    Config(ConfigGetError<EolError>),
}

/// `prefix`, `subject` and `suffix`, one after the other.
fn message(prefix: &str, subject: &str, suffix: &str) -> (res: String)
    ensures
        res@ == prefix@ + subject@ + suffix@,
{
    let mut res: String = prefix.to_owned();
    res.append(subject);
    res.append(suffix);
    res
}

/// The name of the setting.
pub open spec fn eol_conversion_name() -> Seq<char> {
    "working-copy.eol-conversion"@
}

/// Which conversions the user asked for.
#[derive(Debug, PartialEq, Eq, Copy, Clone, Structural)]
pub enum EolConversionSettings {
    /// No conversion.
    NoConversion,
    /// Files get LF on their way into the store, and leave it as they are.
    Input,
    /// Files get LF on their way into the store, and CRLF on their way out.
    InputOutput,
}

/// The setting that a configuration value stands for.
pub open spec fn setting_of(value: ConfigValue) -> Option<EolConversionSettings> {
    match value {
        ConfigValue::String(s) => if s@ == "none"@ {
            Some(EolConversionSettings::NoConversion)
        } else if s@ == "input"@ {
            Some(EolConversionSettings::Input)
        } else if s@ == "input-output"@ {
            Some(EolConversionSettings::InputOutput)
        } else {
            None
        },
        _ => None,
    }
}

/// What is said of a configuration value that stands for no setting.
pub open spec fn setting_error(value: ConfigValue) -> Seq<char> {
    match value {
        ConfigValue::String(s) => "unrecognized working-copy.eol-conversion value: "@ + s@,
        _ => "the working-copy.eol-conversion setting can't be casted to a string"@,
    }
}

/// Whether `error` says that `value`, which the user's settings hold, stands
/// for no setting.
pub open spec fn is_settings_error(error: EolError, value: ConfigValue) -> bool {
    &&& setting_of(value) is None
    &&& error.message@ == "failed to retrieve the working-copy.eol-conversion setting"@
    &&& error.source matches Some(source)
    &&& *source matches ErrorSource::Config(ConfigGetError::Type { name, error: inner })
    &&& name@ == eol_conversion_name()
    &&& inner.message@ == setting_error(value)
    &&& inner.source is None
}

impl EolConversionSettings {
    /// Reads the setting from a configuration value.
    pub fn try_from_config_value(value: ConfigValue) -> (res: Result<Self, EolError>)
        ensures
            match res {
                Ok(setting) => setting_of(value) == Some(setting),
                Err(error) => setting_of(value) is None && error.message@ == setting_error(value)
                    && error.source is None,
            },
    {
        let text: String = match value {
            ConfigValue::String(text) => text,
            _ => {
                return Err(
                    EolError {
                        message:
                            "the working-copy.eol-conversion setting can't be casted to a string".to_owned(),
                        source: None,
                    },
                );
            },
        };
        if text == "none".to_owned() {
            Ok(EolConversionSettings::NoConversion)
        } else if text == "input".to_owned() {
            Ok(EolConversionSettings::Input)
        } else if text == "input-output".to_owned() {
            Ok(EolConversionSettings::InputOutput)
        } else {
            proof {
                reveal_strlit("");
                assert(setting_error(value) + ""@ =~= setting_error(value));
            }
            Err(
                EolError {
                    message: message("unrecognized working-copy.eol-conversion value: ", &text, ""),
                    source: None,
                },
            )
        }
    }

    /// Reads the setting from the user's settings. Without a value, nothing is
    /// converted.
    pub fn try_get_from_settings(user_settings: &UserSettings) -> (res: Result<Self, EolError>)
        ensures
            !user_settings@.contains_key(eol_conversion_name()) ==> res == Ok::<Self, EolError>(
                EolConversionSettings::NoConversion,
            ),
            user_settings@.contains_key(eol_conversion_name()) ==> {
                let value = user_settings@[eol_conversion_name()];
                match res {
                    Ok(setting) => setting_of(value) == Some(setting),
                    Err(error) => is_settings_error(error, value),
                }
            },
    {
        match user_settings.get_value_with(
            "working-copy.eol-conversion",
            Self::try_from_config_value,
        ) {
            Ok(setting) => Ok(setting),
            Err(ConfigGetError::NotFound { .. }) => Ok(EolConversionSettings::NoConversion),
            Err(source) => Err(
                EolError {
                    message:
                        "failed to retrieve the working-copy.eol-conversion setting".to_owned(),
                    source: Some(Box::new(ErrorSource::Config(source))),
                },
            ),
        }
    }
}

/// The target EOL of a file with this content on its way into the store.
pub open spec fn snapshot_target_eol(
    settings: EolConversionSettings,
    content: Seq<u8>,
) -> TargetEol {
    if settings == EolConversionSettings::NoConversion || probed_binary(content) {
        TargetEol::PassThrough
    } else {
        TargetEol::Lf
    }
}

/// The target EOL of a file with this content on its way out of the store.
pub open spec fn update_target_eol(
    settings: EolConversionSettings,
    content: Seq<u8>,
) -> TargetEol {
    if settings != EolConversionSettings::InputOutput || probed_binary(content) {
        TargetEol::PassThrough
    } else {
        TargetEol::Crlf
    }
}

/// How a target EOL is found: at once, or by a look at the file.
#[derive(Clone, Copy, Debug, PartialEq, Eq, Structural)]
pub enum TargetEolStep {
    /// This is the target EOL, whatever the file holds.
    Decided(TargetEol),
    /// The first `limit` bytes of the file decide.
    Probe { limit: u64 },
}

/// How the target EOL for a snapshot is found under a setting.
pub open spec fn snapshot_step(settings: EolConversionSettings) -> TargetEolStep {
    if settings == EolConversionSettings::NoConversion {
        TargetEolStep::Decided(TargetEol::PassThrough)
    } else {
        TargetEolStep::Probe { limit: PROBE_LIMIT }
    }
}

/// How the target EOL for an update is found under a setting.
pub open spec fn update_step(settings: EolConversionSettings) -> TargetEolStep {
    if settings == EolConversionSettings::InputOutput {
        TargetEolStep::Probe { limit: PROBE_LIMIT }
    } else {
        TargetEolStep::Decided(TargetEol::PassThrough)
    }
}

/// What came of reading the first bytes of a file.
#[derive(Debug)]
pub enum ProbeOutcome {
    /// The file could not be opened.
    OpenFailed(ErrorSource),
    /// The file was opened, but could not be read.
    ReadFailed(ErrorSource),
    /// The first bytes of the file.
    Content(Vec<u8>),
}

/// Whether `error` has this message and comes from `source`.
pub open spec fn is_error(error: EolError, message: Seq<char>, source: ErrorSource) -> bool {
    error.message@ == message && error.source == Some(Box::new(source))
}

/// Finds the target EOL of a file by the user's setting.
#[derive(Clone, Copy, Debug)]
pub struct TargetEolStrategyImpl {
    pub eol_conversion_settings: EolConversionSettings,
}

/// The strategy that the user's settings ask for.
pub fn create_target_eol_strategy(user_settings: &UserSettings) -> (res: Result<
    TargetEolStrategyImpl,
    EolError,
>)
    ensures
        match res {
            Ok(strategy) => if user_settings@.contains_key(eol_conversion_name()) {
                setting_of(user_settings@[eol_conversion_name()]) == Some(
                    strategy.eol_conversion_settings,
                )
            } else {
                strategy.eol_conversion_settings == EolConversionSettings::NoConversion
            },
            Err(error) => user_settings@.contains_key(eol_conversion_name())
                && is_settings_error(error, user_settings@[eol_conversion_name()]),
        },
{
    match EolConversionSettings::try_get_from_settings(user_settings) {
        Ok(eol_conversion_settings) => Ok(TargetEolStrategyImpl { eol_conversion_settings }),
        Err(error) => Err(error),
    }
}

impl TargetEolStrategyImpl {
    /// The target EOL for a snapshot of a file, or the request to probe the
    /// file.
    pub fn get_target_eol_for_snapshot(&self) -> (step: TargetEolStep)
        ensures
            step == snapshot_step(self.eol_conversion_settings),
    {
        match self.eol_conversion_settings {
            EolConversionSettings::NoConversion => TargetEolStep::Decided(TargetEol::PassThrough),
            EolConversionSettings::Input | EolConversionSettings::InputOutput =>
                TargetEolStep::Probe { limit: PROBE_LIMIT },
        }
    }

    /// The target EOL for a snapshot of the file at `file_path`, once it has
    /// been probed.
    pub fn get_target_eol_for_probed_snapshot(
        &self,
        file_path: &str,
        probe: ProbeOutcome,
    ) -> (res: Result<TargetEol, EolError>)
        ensures
            self.eol_conversion_settings == EolConversionSettings::NoConversion ==> res == Ok::<
                TargetEol,
                EolError,
            >(TargetEol::PassThrough),
            self.eol_conversion_settings != EolConversionSettings::NoConversion ==> match probe {
                ProbeOutcome::OpenFailed(source) => res matches Err(error) && is_error(
                    error,
                    "failed to open the file "@ + file_path@,
                    source,
                ),
                ProbeOutcome::ReadFailed(source) => res matches Err(error) && is_error(
                    error,
                    "failed to read from the file "@ + file_path@,
                    source,
                ),
                ProbeOutcome::Content(content) => res == Ok::<TargetEol, EolError>(
                    snapshot_target_eol(self.eol_conversion_settings, content@),
                ),
            },
    {
        match self.eol_conversion_settings {
            EolConversionSettings::NoConversion => {
                return Ok(TargetEol::PassThrough);
            },
            EolConversionSettings::Input | EolConversionSettings::InputOutput => {},
        }
        proof {
            reveal_strlit("");
            assert("failed to open the file "@ + file_path@ + ""@ =~= "failed to open the file "@
                + file_path@);
            assert("failed to read from the file "@ + file_path@ + ""@
                =~= "failed to read from the file "@ + file_path@);
        }
        match probe {
            ProbeOutcome::OpenFailed(source) => Err(
                EolError {
                    message: message("failed to open the file ", file_path, ""),
                    source: Some(Box::new(source)),
                },
            ),
            ProbeOutcome::ReadFailed(source) => Err(
                EolError {
                    message: message("failed to read from the file ", file_path, ""),
                    source: Some(Box::new(source)),
                },
            ),
            ProbeOutcome::Content(content) => {
                if is_binary(&content) {
                    return Ok(TargetEol::PassThrough);
                }
                Ok(TargetEol::Lf)
            },
        }
    }

    /// The target EOL for an update of a file from the store, or the request to
    /// probe the file.
    pub fn get_target_eol_for_update(&self) -> (step: TargetEolStep)
        ensures
            step == update_step(self.eol_conversion_settings),
    {
        match self.eol_conversion_settings {
            EolConversionSettings::NoConversion | EolConversionSettings::Input =>
                TargetEolStep::Decided(TargetEol::PassThrough),
            EolConversionSettings::InputOutput => TargetEolStep::Probe { limit: PROBE_LIMIT },
        }
    }

    /// The target EOL for an update of the file at `repo_path` from the store,
    /// once it has been probed.
    pub fn get_target_eol_for_probed_update(
        &self,
        repo_path: &str,
        probe: ProbeOutcome,
    ) -> (res: Result<TargetEol, EolError>)
        ensures
            self.eol_conversion_settings != EolConversionSettings::InputOutput ==> res == Ok::<
                TargetEol,
                EolError,
            >(TargetEol::PassThrough),
            self.eol_conversion_settings == EolConversionSettings::InputOutput ==> match probe {
                ProbeOutcome::OpenFailed(source) => res matches Err(error) && is_error(
                    error,
                    "failed to create reader to the "@ + repo_path@ + " file from the store"@,
                    source,
                ),
                ProbeOutcome::ReadFailed(source) => res matches Err(error) && is_error(
                    error,
                    "failed to read the "@ + repo_path@ + " file from the store"@,
                    source,
                ),
                ProbeOutcome::Content(content) => res == Ok::<TargetEol, EolError>(
                    update_target_eol(self.eol_conversion_settings, content@),
                ),
            },
    {
        match self.eol_conversion_settings {
            EolConversionSettings::NoConversion | EolConversionSettings::Input => {
                return Ok(TargetEol::PassThrough);
            },
            EolConversionSettings::InputOutput => {},
        }
        match probe {
            ProbeOutcome::OpenFailed(source) => Err(
                EolError {
                    message: message(
                        "failed to create reader to the ",
                        repo_path,
                        " file from the store",
                    ),
                    source: Some(Box::new(source)),
                },
            ),
            ProbeOutcome::ReadFailed(source) => Err(
                EolError {
                    message: message("failed to read the ", repo_path, " file from the store"),
                    source: Some(Box::new(source)),
                },
            ),
            ProbeOutcome::Content(content) => {
                if is_binary(&content) {
                    return Ok(TargetEol::PassThrough);
                }
                Ok(TargetEol::Crlf)
            },
        }
    }
}

/// A reader that gives an error once, and then nothing.
#[derive(Debug)]
pub struct ErrorReader(Option<std::io::Error>);

impl ErrorReader {
    /// The error that the next read gives, if it is still to come.
    pub closed spec fn pending(&self) -> Option<std::io::Error> {
        self.0
    }

    /// A reader whose first read gives `error`.
    pub fn new(error: std::io::Error) -> (res: Self)
        ensures
            res.pending() == Some(error),
    {
        ErrorReader(Some(error))
    }

    /// Gives the error on the first read, and the end of the input on every
    /// later one. Nothing is ever written to `_buf`.
    pub fn read(&mut self, _buf: &mut [u8]) -> (res: Result<usize, std::io::Error>)
        ensures
            final(self).pending() is None,
            final(_buf)@ == old(_buf)@,
            res == (match old(self).pending() {
                Some(error) => Err(error),
                None => Ok(0usize),
            }),
    {
        if let Some(e) = self.0.take() {
            return Err(e);
        }
        Ok(0)
    }

    /// The outcome of a poll for bytes, which is always ready: the error on the
    /// first poll, and the end of the input on every later one.
    pub fn poll_read(&mut self) -> (res: Result<(), std::io::Error>)
        ensures
            final(self).pending() is None,
            res == (match old(self).pending() {
                Some(error) => Err(error),
                None => Ok(()),
            }),
    {
        if let Some(e) = self.0.take() {
            return Err(e);
        }
        Ok(())
    }
}

/// How an input is converted: not at all, or once all of it has been read.
#[derive(Clone, Copy, Debug, PartialEq, Eq, Structural)]
pub enum ConvertStep {
    /// The input itself is the output.
    PassThrough,
    /// The input is to be read to its end.
    ReadToEnd,
}

/// What takes the place of an input that has been read.
#[derive(Debug)]
pub enum ConvertedReader {
    /// The input could not be read.
    Error(ErrorReader),
    /// The bytes to read instead.
    Content(Vec<u8>),
}

/// What is to be done with an input that is to be converted.
pub fn convert_eol(target_eol: TargetEol) -> (step: ConvertStep)
    ensures
        step == (if target_eol == TargetEol::PassThrough {
            ConvertStep::PassThrough
        } else {
            ConvertStep::ReadToEnd
        }),
{
    if target_eol == TargetEol::PassThrough {
        return ConvertStep::PassThrough;
    }
    ConvertStep::ReadToEnd
}

/// What takes the place of an input, given what came of reading it to its end.
pub fn convert_eol_of_read(
    read: Result<Vec<u8>, std::io::Error>,
    target_eol: TargetEol,
) -> (res: ConvertedReader)
    requires
        target_eol != TargetEol::PassThrough,
    ensures
        match read {
            Err(e) => res matches ConvertedReader::Error(reader) && reader.pending() == Some(e),
            Ok(content) => res matches ConvertedReader::Content(bytes) && bytes@ == converted(
                content@,
                target_eol,
            ),
        },
{
    match read {
        Err(e) => ConvertedReader::Error(ErrorReader::new(e)),
        Ok(content) => ConvertedReader::Content(convert_eol_inner(&content, target_eol)),
    }
}

} // verus!
