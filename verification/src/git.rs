//! The strategy that follows Git's configuration and attributes.
use std::sync::Arc;

use vstd::prelude::*;

use crate::eol::{TargetEol, TargetEolStep};
use crate::git_attributes::{
    chained, eol_attribute, state_ref_view, text_attribute, GitAttributesFile, Layer, State,
    StateView,
};
use crate::local_working_copy::DefaultTargetEolStrategy;
use crate::plumbing;
use crate::plumbing::{config_values, parsed_lines};
use crate::probe::{is_binary, probed_binary, PROBE_LIMIT};
use crate::repo_path::{valid_name, RepoPathBuf};

verus! {

/// The states of `core.autocrlf`.
#[derive(Clone, Copy, Debug, PartialEq, Eq, Structural)]
pub enum AutoCrlf {
    /// Files get LF on their way into the store.
    Input,
    /// Files get LF on their way into the store, and CRLF on their way out.
    Enabled,
    /// No conversion.
    Disabled,
}

/// Whether `value` is `word`, which is in lower case, if the case of ASCII letters
/// is ignored.
pub open spec fn is_word(value: Seq<u8>, word: Seq<char>) -> bool {
    value.len() == word.len() && forall|i: int|
        0 <= i < word.len() ==> (#[trigger] value[i] == word[i] as u8 || value[i] + 32
            == word[i] as u8)
}

/// The number that `digits` stand for in decimal notation, if they are at least
/// one digit and nothing else.
pub open spec fn decimal(digits: Seq<u8>) -> Option<int>
    decreases digits.len(),
{
    if digits.len() == 0 || !('0' as u8 <= digits.last() <= '9' as u8) {
        None
    } else if digits.len() == 1 {
        Some(digits[0] - '0' as u8)
    } else {
        match decimal(digits.drop_last()) {
            Some(n) => Some(10 * n + (digits.last() - '0' as u8)),
            None => None,
        }
    }
}

/// The number that `value` stands for, with or without a sign, if it is one and
/// fits into 64 bits.
pub open spec fn signed_decimal(value: Seq<u8>) -> Option<int> {
    let number = if value.len() > 0 && value[0] == '-' as u8 {
        match decimal(value.skip(1)) {
            Some(n) => Some(-n),
            None => None,
        }
    } else if value.len() > 0 && value[0] == '+' as u8 {
        decimal(value.skip(1))
    } else {
        decimal(value)
    };
    match number {
        Some(n) if i64::MIN <= n <= i64::MAX => Some(n),
        _ => None,
    }
}

/// What a value of `core.autocrlf` means, if it is valid.
pub open spec fn auto_crlf_of(value: Seq<u8>) -> Option<AutoCrlf> {
    if value == "input"@.map_values(|c: char| c as u8) {
        Some(AutoCrlf::Input)
    } else if is_word(value, "yes"@) || is_word(value, "on"@) || is_word(value, "true"@) {
        Some(AutoCrlf::Enabled)
    } else if is_word(value, "no"@) || is_word(value, "off"@) || is_word(value, "false"@)
        || value.len() == 0 {
        Some(AutoCrlf::Disabled)
    } else {
        match signed_decimal(value) {
            Some(n) => if n == 0 {
                Some(AutoCrlf::Disabled)
            } else {
                Some(AutoCrlf::Enabled)
            },
            None => None,
        }
    }
}

/// Finds the target EOL of a file by Git's configuration and attributes.
#[derive(Debug)]
pub struct GitTargetEolStrategy {
    pub auto_crlf: Option<AutoCrlf>,
    pub git_attributes: Arc<GitAttributesFile>,
}

/// What `core.autocrlf` is in a configuration, if it is there and valid.
pub open spec fn configured_auto_crlf(config: gix::config::File<'static>) -> Option<AutoCrlf> {
    if config_values(config).contains_key("core.autocrlf"@) {
        auto_crlf_of(config_values(config)["core.autocrlf"@])
    } else {
        None
    }
}

/// The layers before any `.gitattributes` file was found.
pub open spec fn root_layers() -> Seq<Layer> {
    seq![Layer { prefix: Seq::empty(), lines: Seq::empty() }]
}

/// The target EOL for a snapshot of a file with this content; `None` stands for
/// one that could not be read.
pub open spec fn git_snapshot_target_eol(
    auto_crlf: Option<AutoCrlf>,
    content: Option<Seq<u8>>,
) -> TargetEol {
    match (auto_crlf, content) {
        (Some(AutoCrlf::Enabled | AutoCrlf::Input), Some(content)) => if probed_binary(content) {
            TargetEol::PassThrough
        } else {
            TargetEol::Lf
        },
        _ => TargetEol::PassThrough,
    }
}

/// How the target EOL for a snapshot is found.
pub open spec fn git_snapshot_step(auto_crlf: Option<AutoCrlf>) -> TargetEolStep {
    match auto_crlf {
        Some(AutoCrlf::Enabled | AutoCrlf::Input) => TargetEolStep::Probe { limit: PROBE_LIMIT },
        _ => TargetEolStep::Decided(TargetEol::PassThrough),
    }
}

/// The target EOL for an update of a file with this content whose attributes
/// leave it open; `None` stands for one that could not be read.
pub open spec fn git_update_target_eol(
    auto_crlf: Option<AutoCrlf>,
    content: Option<Seq<u8>>,
) -> TargetEol {
    match (auto_crlf, content) {
        (Some(AutoCrlf::Enabled), Some(content)) => if probed_binary(content) {
            TargetEol::PassThrough
        } else {
            TargetEol::Crlf
        },
        _ => TargetEol::PassThrough,
    }
}

/// The line terminator of the platform.
pub open spec fn native_eol(windows: bool) -> TargetEol {
    if windows {
        TargetEol::Crlf
    } else {
        TargetEol::Lf
    }
}

/// The combinations of the `text` and `eol` attributes that have a meaning yet:
/// `text` is unspecified, or it is set and `eol` is not mentioned.
pub open spec fn attributes_supported(text: Option<StateView>, eol: Option<StateView>) -> bool {
    match text {
        None | Some(StateView::Unspecified) => true,
        Some(StateView::IsSet) => eol is None,
        _ => false,
    }
}

/// How the target EOL for an update of a file with these attributes is found.
pub open spec fn git_update_step(
    text: Option<StateView>,
    auto_crlf: Option<AutoCrlf>,
    windows: bool,
) -> TargetEolStep {
    if text == Some(StateView::IsSet) {
        TargetEolStep::Decided(native_eol(windows))
    } else if auto_crlf == Some(AutoCrlf::Enabled) {
        TargetEolStep::Probe { limit: PROBE_LIMIT }
    } else {
        TargetEolStep::Decided(TargetEol::PassThrough)
    }
}

/// The line terminator of the platform.
pub fn native_target_eol(windows: bool) -> (res: TargetEol)
    ensures
        res == native_eol(windows),
{
    if windows {
        TargetEol::Crlf
    } else {
        TargetEol::Lf
    }
}

/// Whether these attributes have a meaning yet.
pub fn are_attributes_supported(text: Option<&State>, eol: Option<&State>) -> (res: bool)
    ensures
        res == attributes_supported(state_ref_view(text), state_ref_view(eol)),
{
    match text {
        None | Some(State::Unspecified) => true,
        Some(State::IsSet) => eol.is_none(),
        Some(State::Unset) | Some(State::Value(_)) => false,
    }
}

/// How the target EOL for an update of a file with these attributes is found.
pub fn update_step_of_attributes(
    text: Option<&State>,
    eol: Option<&State>,
    auto_crlf: Option<AutoCrlf>,
    windows: bool,
) -> (step: TargetEolStep)
    requires
        attributes_supported(state_ref_view(text), state_ref_view(eol)),
    ensures
        step == git_update_step(state_ref_view(text), auto_crlf, windows),
{
    if let Some(State::IsSet) = text {
        return TargetEolStep::Decided(native_target_eol(windows));
    }
    if let Some(auto_crlf) = auto_crlf {
        match auto_crlf {
            AutoCrlf::Disabled | AutoCrlf::Input => {
                return TargetEolStep::Decided(TargetEol::PassThrough);
            },
            AutoCrlf::Enabled => {
                return TargetEolStep::Probe { limit: PROBE_LIMIT };
            },
        }
    }
    TargetEolStep::Decided(DefaultTargetEolStrategy.get_update_writer_target_eol())
}

/// What a tree has at a path.
#[derive(Debug)]
pub enum TreeLookup<Id> {
    /// The tree could not be read.
    Failed,
    /// Sides of a merge differ there.
    Conflicted,
    /// Nothing.
    Absent,
    /// The file with this id.
    File(Id),
    /// Something that is not a file.
    NotAFile,
}

/// How the strategy for the files of a directory is found.
#[derive(Debug)]
pub enum DirLayerStep<Id> {
    /// This is the strategy.
    Done(GitTargetEolStrategy),
    /// The content of the file with this id is to be read from the store.
    Read { path: RepoPathBuf, id: Id },
}

/// `.gitattributes` is a valid name.
proof fn lemma_attributes_name()
    ensures
        valid_name(".gitattributes"@),
{
    reveal_strlit(".gitattributes");
}

impl GitTargetEolStrategy {
    /// The attributes are well-formed.
    pub open spec fn well_formed(self) -> bool {
        self.git_attributes.well_formed()
    }

    /// The strategy that a Git configuration asks for, before any
    /// `.gitattributes` file was found.
    pub fn new(config: &gix::config::File<'static>) -> (res: Self)
        ensures
            res.auto_crlf == configured_auto_crlf(*config),
            res.git_attributes@ == root_layers(),
            res.well_formed(),
    {
        let auto_crlf: Option<AutoCrlf> = match plumbing::raw_autocrlf(config) {
            Some(value) => plumbing::parse_autocrlf(&value),
            None => None,
        };
        GitTargetEolStrategy::with_auto_crlf(auto_crlf)
    }

    /// The strategy for this state of `core.autocrlf`, before any
    /// `.gitattributes` file was found.
    pub fn with_auto_crlf(auto_crlf: Option<AutoCrlf>) -> (res: Self)
        ensures
            res.auto_crlf == auto_crlf,
            res.git_attributes@ == root_layers(),
            res.well_formed(),
    {
        GitTargetEolStrategy { auto_crlf, git_attributes: Arc::new(GitAttributesFile::default()) }
    }

    /// The target EOL for a snapshot of a file, or the request to probe the
    /// file.
    pub fn get_snapshot_reader_target_eol(&self) -> (step: TargetEolStep)
        ensures
            step == git_snapshot_step(self.auto_crlf),
    {
        if let Some(auto_crlf) = self.auto_crlf {
            match auto_crlf {
                AutoCrlf::Disabled => {
                    return TargetEolStep::Decided(TargetEol::PassThrough);
                },
                AutoCrlf::Enabled | AutoCrlf::Input => {
                    return TargetEolStep::Probe { limit: PROBE_LIMIT };
                },
            }
        }
        TargetEolStep::Decided(DefaultTargetEolStrategy.get_snapshot_reader_target_eol())
    }

    /// The target EOL for a snapshot of a file, once it has been probed. A file
    /// that could not be read is not converted.
    pub fn get_snapshot_reader_target_eol_of_probe(&self, content: Option<&[u8]>) -> (res:
        TargetEol)
        ensures
            res == git_snapshot_target_eol(
                self.auto_crlf,
                match content {
                    Some(content) => Some(content@),
                    None => None,
                },
            ),
    {
        if let Some(auto_crlf) = self.auto_crlf {
            match auto_crlf {
                AutoCrlf::Disabled => {
                    return TargetEol::PassThrough;
                },
                AutoCrlf::Enabled | AutoCrlf::Input => {
                    if let Some(content) = content {
                        if is_binary(content) {
                            return TargetEol::PassThrough;
                        }
                        return TargetEol::Lf;
                    }
                },
            }
        }
        DefaultTargetEolStrategy.get_snapshot_reader_target_eol()
    }

    /// The target EOL for an update of the file at `repo_path` from the store,
    /// or the request to probe the file.
    pub fn get_update_writer_target_eol(&self, repo_path: &RepoPathBuf, windows: bool) -> (step:
        TargetEolStep)
        requires
            self.well_formed(),
            attributes_supported(
                text_attribute(self.git_attributes@, repo_path@),
                eol_attribute(self.git_attributes@, repo_path@),
            ),
        ensures
            step == git_update_step(
                text_attribute(self.git_attributes@, repo_path@),
                self.auto_crlf,
                windows,
            ),
    {
        let git_attr_eol = self.git_attributes.eol_state(repo_path);
        let git_attr_text = self.git_attributes.text_state(repo_path);
        update_step_of_attributes(git_attr_text, git_attr_eol, self.auto_crlf, windows)
    }

    /// As `get_update_writer_target_eol`, but `None` where the attributes of the
    /// file have no meaning yet.
    pub fn checked_update_writer_target_eol(&self, repo_path: &RepoPathBuf, windows: bool) -> (res:
        Option<TargetEolStep>)
        requires
            self.well_formed(),
        ensures
            res == (if attributes_supported(
                text_attribute(self.git_attributes@, repo_path@),
                eol_attribute(self.git_attributes@, repo_path@),
            ) {
                Some(
                    git_update_step(
                        text_attribute(self.git_attributes@, repo_path@),
                        self.auto_crlf,
                        windows,
                    ),
                )
            } else {
                None
            }),
    {
        let git_attr_eol = self.git_attributes.eol_state(repo_path);
        let git_attr_text = self.git_attributes.text_state(repo_path);
        if !are_attributes_supported(git_attr_text, git_attr_eol) {
            return None;
        }
        Some(self.get_update_writer_target_eol(repo_path, windows))
    }

    /// The target EOL for an update of a file from the store, once it has been
    /// probed. A file that could not be read is not converted.
    pub fn get_update_writer_target_eol_of_probe(&self, content: Option<&[u8]>) -> (res: TargetEol)
        ensures
            res == git_update_target_eol(
                self.auto_crlf,
                match content {
                    Some(content) => Some(content@),
                    None => None,
                },
            ),
    {
        if let Some(auto_crlf) = self.auto_crlf {
            match auto_crlf {
                AutoCrlf::Disabled | AutoCrlf::Input => {
                    return TargetEol::PassThrough;
                },
                AutoCrlf::Enabled => {
                    if let Some(content) = content {
                        if is_binary(content) {
                            return TargetEol::PassThrough;
                        }
                        return TargetEol::Crlf;
                    }
                },
            }
        }
        DefaultTargetEolStrategy.get_update_writer_target_eol()
    }

    /// Another strategy with the same configuration and attributes.
    fn same(&self) -> (res: Self)
        ensures
            res == *self,
    {
        GitTargetEolStrategy {
            auto_crlf: self.auto_crlf,
            git_attributes: plumbing::share(&self.git_attributes),
        }
    }

    /// The path at which the tree of a directory is asked for the directory's
    /// `.gitattributes` file.
    pub fn add_dir_layer_from_store() -> (res: RepoPathBuf)
        ensures
            res@ == seq![".gitattributes"@],
    {
        proof {
            lemma_attributes_name();
        }
        let res = RepoPathBuf::root().join(".gitattributes");
        proof {
            assert(res@ =~= seq![".gitattributes"@]);
        }
        res
    }

    /// What is to be done with what the tree of the directory `repo_path` has
    /// there. Without a file, the strategy stays as it is.
    pub fn add_dir_layer_of_lookup<Id>(&self, repo_path: &RepoPathBuf, lookup: TreeLookup<Id>) -> (
    step: DirLayerStep<Id>)
        ensures
            match lookup {
                TreeLookup::File(id) => step matches DirLayerStep::Read { path, id: wanted }
                    && path@ == repo_path@.push(".gitattributes"@) && wanted == id,
                _ => step == DirLayerStep::<Id>::Done(*self),
            },
    {
        proof {
            lemma_attributes_name();
        }
        match lookup {
            TreeLookup::File(id) => DirLayerStep::Read {
                path: repo_path.join(".gitattributes"),
                id,
            },
            TreeLookup::Failed
            | TreeLookup::Conflicted
            | TreeLookup::Absent
            | TreeLookup::NotAFile => DirLayerStep::Done(self.same()),
        }
    }

    /// The strategy for the files of the directory `repo_path`, given the
    /// content of its `.gitattributes` file. If that could not be read, the
    /// strategy stays as it is.
    pub fn add_dir_layer_of_content(&self, repo_path: &RepoPathBuf, content: Option<&[u8]>) -> (res:
        Self)
        requires
            self.well_formed(),
        ensures
            res.well_formed(),
            res.auto_crlf == self.auto_crlf,
            res.git_attributes@ == (match content {
                Some(content) => chained(
                    self.git_attributes@,
                    repo_path@,
                    parsed_lines(content@),
                ),
                None => self.git_attributes@,
            }),
    {
        match content {
            Some(content) => GitTargetEolStrategy {
                auto_crlf: self.auto_crlf,
                git_attributes: self.git_attributes.chain(repo_path, content),
            },
            None => self.same(),
        }
    }
}

} // verus!
