//! What the library has from outside crates, each call behind one function
//! whose contract is taken from the crate's source and documentation.
use std::borrow::Cow;
use std::sync::Arc;

use gix::attrs::parse;
use gix::attrs::parse::Kind;
use gix::attrs::StateRef;
use gix::config::tree::Core;
use gix::filter::plumbing::eol;
use vstd::prelude::*;

use crate::git::{auto_crlf_of, AutoCrlf};
use crate::git_attributes::{
    Assignment, ParsedLine, ParsedLineView, Pattern, PatternView, State,
};
use crate::probe::{
    crlf_count, lf_count, lone_cr_count, non_printable_count, null_count, printable_count, Stats,
};
use crate::text::split_lines;

verus! {

/// `std::io::Error`, which is carried from where reading failed to whoever asked
/// for the bytes. Nothing is claimed of it.
#[verifier::external_type_specification]
#[verifier::external_body]
pub struct ExIoError(std::io::Error);

/// Calls `std`'s `Arc::clone`.
///
/// Claimed of it: the new pointer points to the same value.
#[verifier::external_body]
pub(crate) fn share<T>(pointer: &Arc<T>) -> (res: Arc<T>)
    ensures
        res == *pointer,
{
    Arc::clone(pointer)
}

/// Calls `bstr`'s `ByteSlice::lines` and collects the lines.
///
/// Claimed of it: the lines come in order, each without the `\r\n` or `\n` that
/// ended it, and a last line that has no terminator is a line too.
#[verifier::external_body]
pub(crate) fn lines<'a>(input: &'a [u8]) -> (res: Vec<&'a [u8]>)
    ensures
        res@.len() == split_lines(input@).len(),
        forall|i: int| 0 <= i < res@.len() ==> (#[trigger] res@[i])@ == split_lines(input@)[i],
{
    bstr::ByteSlice::lines(input).collect()
}

/// Calls `gix`'s `filter::plumbing::eol::Stats::from_bytes`.
///
/// Claimed of it: it scans all of `bytes`, and each field is the number of
/// positions of its kind; a `\n` directly after a `\r` counts with it as one pair
/// and is no lone line feed.
#[verifier::external_body]
pub(crate) fn stats_from_bytes(bytes: &[u8]) -> (res: Stats)
    ensures
        res.null == null_count(bytes@),
        res.lone_cr == lone_cr_count(bytes@),
        res.lone_lf + res.crlf == lf_count(bytes@),
        res.crlf == crlf_count(bytes@),
        res.printable == printable_count(bytes@),
        res.non_printable == non_printable_count(bytes@),
{
    let stats = eol::Stats::from_bytes(bytes);
    Stats {
        null: stats.null,
        lone_cr: stats.lone_cr,
        lone_lf: stats.lone_lf,
        crlf: stats.crlf,
        printable: stats.printable,
        non_printable: stats.non_printable,
    }
}

/// Calls `gix`'s `filter::plumbing::eol::Stats::is_binary`.
///
/// Claimed of it: it tests for a null byte, for a lone carriage return, and
/// whether the printable bytes, divided by 128 and rounded down, are fewer than
/// the others.
#[verifier::external_body]
pub(crate) fn stats_is_binary(stats: Stats) -> (res: bool)
    ensures
        res == (stats.lone_cr > 0 || stats.null > 0 || stats.printable / 128
            < stats.non_printable),
{
    let stats = eol::Stats {
        null: stats.null,
        lone_cr: stats.lone_cr,
        lone_lf: stats.lone_lf,
        crlf: stats.crlf,
        printable: stats.printable,
        non_printable: stats.non_printable,
    };
    stats.is_binary()
}

/// What `gix` makes of the content of a `.gitattributes` file.
pub uninterp spec fn parsed_lines(content: Seq<u8>) -> Seq<ParsedLineView>;

/// Calls `gix`'s `attrs::parse` and collects the lines, each with its
/// attributes.
///
/// Claimed of it: the lines depend on the content alone, and where a pattern
/// has a wildcard, the position of the first one lies within the pattern.
#[verifier::external_body]
pub(crate) fn parse_attributes(content: &[u8]) -> (res: Vec<ParsedLine>)
    ensures
        res@.map_values(|line: ParsedLine| line@) == parsed_lines(content@),
        forall|i: int|
            0 <= i < res@.len() ==> ((#[trigger] res@[i]) matches ParsedLine::Pattern { pattern, .. }
                ==> pattern@.well_formed()),
{
    parse(content).map(|line| match line {
        Ok((Kind::Pattern(p), attrs, _)) => ParsedLine::Pattern {
            pattern: Pattern { text: p.text.into(), mode: p.mode.bits(), first_wildcard_pos: p.first_wildcard_pos },
            attrs: attrs.map(|attr| attr.ok().map(|a| Assignment { name: a.name.as_str().to_owned(), state: match a.state {
                StateRef::Set => State::IsSet,
                StateRef::Unset => State::Unset,
                StateRef::Value(v) => State::Value(v.as_bstr().to_vec()),
                StateRef::Unspecified => State::Unspecified,
            } })).collect(),
        },
        Ok((Kind::Macro(_), ..)) => ParsedLine::Macro,
        Err(_) => ParsedLine::Invalid,
    }).collect()
}

/// Whether `gix` takes `path` to match the pattern.
pub uninterp spec fn glob_match(pattern: PatternView, path: Seq<u8>) -> bool;

/// Calls `gix`'s `glob::Pattern::matches`, without any of the flags that make
/// the match ignore case or stop at slashes.
///
/// Claimed of it: whether there is a match depends on the pattern and the path
/// alone.
#[verifier::external_body]
pub(crate) fn pattern_matches(pattern: &Pattern, path: &[u8]) -> (res: bool)
    requires
        pattern@.well_formed(),
    ensures
        res == glob_match(pattern@, path@),
{
    let pattern = gix::glob::Pattern {
        text: pattern.text.clone().into(),
        mode: gix::glob::pattern::Mode::from_bits_retain(pattern.mode),
        first_wildcard_pos: pattern.first_wildcard_pos,
    };
    pattern.matches(path.into(), gix::glob::wildmatch::Mode::empty())
}

/// `gix`'s `config::File`: the values of a Git configuration. Nothing is claimed
/// of it but what `raw_autocrlf` says.
#[verifier::external_type_specification]
#[verifier::external_body]
pub struct ExConfigFile<'event>(gix::config::File<'event>);

/// The values of a Git configuration, by their full names. Of a name that is
/// given more than once, the last section that has a value for it counts, and
/// there the last value.
pub uninterp spec fn config_values(config: gix::config::File<'static>) -> Map<Seq<char>, Seq<u8>>;

/// Calls `gix`'s `config::File::raw_value` for the key `core.autocrlf`.
///
/// Claimed of it: it gives the value that the configuration has for the key,
/// and an error if there is none.
#[verifier::external_body]
pub(crate) fn raw_autocrlf(config: &gix::config::File<'static>) -> (res: Option<Vec<u8>>)
    ensures
        match res {
            Some(value) => config_values(*config).contains_key("core.autocrlf"@) && value@
                == config_values(*config)["core.autocrlf"@],
            None => !config_values(*config).contains_key("core.autocrlf"@),
        },
{
    config.raw_value(Core::AUTO_CRLF).ok().map(|value| value.to_vec())
}

/// Calls `gix`'s `try_into_autocrlf` of the key `core.autocrlf`.
///
/// Claimed of it: `input` and nothing else means `Input`; the words for true and
/// false, whatever their case, and the empty value mean `Enabled` and `Disabled`;
/// of the other values those are valid that `std` parses as an `i64`, which is an
/// optional sign and digits, and among them zero means `Disabled`.
#[verifier::external_body]
pub(crate) fn parse_autocrlf(value: &[u8]) -> (res: Option<AutoCrlf>)
    ensures
        res == auto_crlf_of(value@),
{
    match Core::AUTO_CRLF.try_into_autocrlf(Cow::Borrowed(value.into())) {
        Ok(eol::AutoCrlf::Input) => Some(AutoCrlf::Input),
        Ok(eol::AutoCrlf::Enabled) => Some(AutoCrlf::Enabled),
        Ok(eol::AutoCrlf::Disabled) => Some(AutoCrlf::Disabled),
        Err(_) => None,
    }
}

} // verus!
