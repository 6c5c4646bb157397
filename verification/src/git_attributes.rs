//! The attributes of `.gitattributes` files that concern line terminators.
use std::sync::Arc;

use vstd::prelude::*;

use crate::plumbing;
use crate::plumbing::{glob_match, parsed_lines};
use crate::repo_path::{below, joined, RepoPathBuf};

verus! {

/// The state that a line gives an attribute.
#[derive(Debug)]
pub enum State {
    /// The attribute is listed.
    IsSet,
    /// The attribute is listed after a `-`.
    Unset,
    /// The attribute has the value that follows a `=`.
    Value(Vec<u8>),
    /// The attribute is listed after a `!`.
    Unspecified,
}

/// The view of a `State`.
pub enum StateView {
    IsSet,
    Unset,
    Value(Seq<u8>),
    Unspecified,
}

impl View for State {
    type V = StateView;

    open spec fn view(&self) -> StateView {
        match self {
            State::IsSet => StateView::IsSet,
            State::Unset => StateView::Unset,
            State::Value(value) => StateView::Value(value@),
            State::Unspecified => StateView::Unspecified,
        }
    }
}

impl Clone for State {
    fn clone(&self) -> (res: Self)
        ensures
            res@ == self@,
    {
        match self {
            State::IsSet => State::IsSet,
            State::Unset => State::Unset,
            State::Value(value) => State::Value(copy_bytes(value)),
            State::Unspecified => State::Unspecified,
        }
    }
}

/// Another copy of the bytes.
fn copy_bytes(bytes: &[u8]) -> (res: Vec<u8>)
    ensures
        res@ == bytes@,
{
    let mut res: Vec<u8> = Vec::new();
    res.extend_from_slice(bytes);
    res
}

/// A glob pattern that paths are matched against.
#[derive(Debug)]
pub struct Pattern {
    /// The pattern itself.
    pub text: Vec<u8>,
    /// What is known of the pattern, as flags.
    pub mode: u32,
    /// The position of the first wildcard in `text`, if there is one.
    pub first_wildcard_pos: Option<usize>,
}

/// The view of a `Pattern`.
pub struct PatternView {
    pub text: Seq<u8>,
    pub mode: u32,
    pub first_wildcard_pos: Option<usize>,
}

impl PatternView {
    /// The first wildcard is a byte of the pattern.
    pub open spec fn well_formed(self) -> bool {
        self.first_wildcard_pos matches Some(pos) ==> pos < self.text.len()
    }
}

impl View for Pattern {
    type V = PatternView;

    open spec fn view(&self) -> PatternView {
        PatternView {
            text: self.text@,
            mode: self.mode,
            first_wildcard_pos: self.first_wildcard_pos,
        }
    }
}

/// An attribute by name, and the state that it is given.
#[derive(Debug)]
pub struct Assignment {
    pub name: String,
    pub state: State,
}

/// The view of an `Assignment`.
pub struct AssignmentView {
    pub name: Seq<char>,
    pub state: StateView,
}

impl View for Assignment {
    type V = AssignmentView;

    open spec fn view(&self) -> AssignmentView {
        AssignmentView { name: self.name@, state: self.state@ }
    }
}

/// A line of a `.gitattributes` file. Blank lines and comments are none.
#[derive(Debug)]
pub enum ParsedLine {
    /// The attributes of the paths that a pattern matches; `None` stands for an
    /// attribute whose name is not valid.
    Pattern { pattern: Pattern, attrs: Vec<Option<Assignment>> },
    /// The definition of a macro.
    Macro,
    /// A line that is not valid.
    Invalid,
}

/// The view of a `ParsedLine`.
pub enum ParsedLineView {
    Pattern { pattern: PatternView, attrs: Seq<Option<AssignmentView>> },
    Macro,
    Invalid,
}

/// The view of an attribute that may not be valid.
pub open spec fn assignment_view(attr: Option<Assignment>) -> Option<AssignmentView> {
    match attr {
        Some(assignment) => Some(assignment@),
        None => None,
    }
}

impl View for ParsedLine {
    type V = ParsedLineView;

    open spec fn view(&self) -> ParsedLineView {
        match self {
            ParsedLine::Pattern { pattern, attrs } => ParsedLineView::Pattern {
                pattern: pattern@,
                attrs: attrs@.map_values(|a: Option<Assignment>| assignment_view(a)),
            },
            ParsedLine::Macro => ParsedLineView::Macro,
            ParsedLine::Invalid => ParsedLineView::Invalid,
        }
    }
}

/// A pattern, with the states of the two attributes that concern line
/// terminators.
#[derive(Debug)]
pub struct GitAttributeLine {
    pub pattern: Pattern,
    pub eol: Option<State>,
    pub text: Option<State>,
}

/// The view of a `GitAttributeLine`.
pub struct GitAttributeLineView {
    pub pattern: PatternView,
    pub eol: Option<StateView>,
    pub text: Option<StateView>,
}

/// The view of a state that may not be given.
pub open spec fn state_view(state: Option<State>) -> Option<StateView> {
    match state {
        Some(state) => Some(state@),
        None => None,
    }
}

impl View for GitAttributeLine {
    type V = GitAttributeLineView;

    open spec fn view(&self) -> GitAttributeLineView {
        GitAttributeLineView {
            pattern: self.pattern@,
            eol: state_view(self.eol),
            text: state_view(self.text),
        }
    }
}

/// The state of the attribute `name` on a line with these attributes: the last
/// one that it is given counts.
pub open spec fn last_state(attrs: Seq<Option<AssignmentView>>, name: Seq<char>) -> Option<
    StateView,
>
    decreases attrs.len(),
{
    if attrs.len() == 0 {
        None
    } else {
        match attrs.last() {
            Some(a) if a.name == name => Some(a.state),
            _ => last_state(attrs.drop_last(), name),
        }
    }
}

/// What a line says of line terminators, if it says anything.
pub open spec fn eol_line(line: ParsedLineView) -> Option<GitAttributeLineView> {
    match line {
        ParsedLineView::Pattern { pattern, attrs } => {
            let eol = last_state(attrs, "eol"@);
            let text = last_state(attrs, "text"@);
            if eol is None && text is None {
                None
            } else {
                Some(GitAttributeLineView { pattern, eol, text })
            }
        },
        _ => None,
    }
}

/// What the lines say of line terminators, in their order.
pub open spec fn eol_lines(lines: Seq<ParsedLineView>) -> Seq<GitAttributeLineView>
    decreases lines.len(),
{
    if lines.len() == 0 {
        Seq::empty()
    } else {
        match eol_line(lines.last()) {
            Some(line) => eol_lines(lines.drop_last()).push(line),
            None => eol_lines(lines.drop_last()),
        }
    }
}

/// The views of lines as they are parsed.
pub open spec fn parsed_views(lines: Seq<ParsedLine>) -> Seq<ParsedLineView> {
    lines.map_values(|line: ParsedLine| line@)
}

/// The views of lines.
pub open spec fn line_views(lines: Seq<GitAttributeLine>) -> Seq<GitAttributeLineView> {
    lines.map_values(|line: GitAttributeLine| line@)
}

/// Every pattern among the lines is well-formed.
pub open spec fn parsed_well_formed(lines: Seq<ParsedLine>) -> bool {
    forall|i: int|
        0 <= i < lines.len() ==> ((#[trigger] lines[i]) matches ParsedLine::Pattern { pattern, .. }
            ==> pattern@.well_formed())
}

/// What a line says of line terminators, if it says anything.
fn to_eol_line(line: ParsedLine) -> (res: Option<GitAttributeLine>)
    ensures
        match res {
            Some(l) => eol_line(line@) == Some(l@),
            None => eol_line(line@) is None,
        },
        res matches Some(l) ==> (line matches ParsedLine::Pattern { pattern, .. } && l.pattern
            == pattern),
{
    match line {
        ParsedLine::Pattern { pattern, attrs } => {
            let ghost views = attrs@.map_values(|a: Option<Assignment>| assignment_view(a));
            let mut eol: Option<State> = None;
            let mut text: Option<State> = None;
            let mut i: usize = 0;
            while i < attrs.len()
                invariant
                    i <= attrs@.len(),
                    views == attrs@.map_values(|a: Option<Assignment>| assignment_view(a)),
                    state_view(eol) == last_state(views.take(i as int), "eol"@),
                    state_view(text) == last_state(views.take(i as int), "text"@),
                decreases attrs.len() - i,
            {
                proof {
                    assert(views.take(i + 1).drop_last() =~= views.take(i as int));
                    assert(views.take(i + 1).last() == assignment_view(attrs@[i as int]));
                    reveal_strlit("eol");
                    reveal_strlit("text");
                    assert("eol"@.len() != "text"@.len());
                }
                if let Some(attr) = &attrs[i] {
                    if attr.name == "text".to_owned() {
                        text = Some(attr.state.clone());
                    }
                    if attr.name == "eol".to_owned() {
                        eol = Some(attr.state.clone());
                    }
                }
                i += 1;
            }
            proof {
                assert(views.take(i as int) =~= views);
            }
            if text.is_none() && eol.is_none() {
                return None;
            }
            Some(GitAttributeLine { pattern, eol, text })
        },
        _ => None,
    }
}

/// What the lines say of line terminators, in their order.
pub fn to_eol_lines(lines: Vec<ParsedLine>) -> (res: Vec<GitAttributeLine>)
    requires
        parsed_well_formed(lines@),
    ensures
        line_views(res@) == eol_lines(parsed_views(lines@)),
        forall|i: int| 0 <= i < res@.len() ==> (#[trigger] res@[i]).pattern@.well_formed(),
{
    let ghost views = parsed_views(lines@);
    let mut res: Vec<GitAttributeLine> = Vec::new();
    proof {
        assert(line_views(res@) =~= eol_lines(views.take(0)));
    }
    for line in iter: lines
        invariant
            parsed_well_formed(lines@),
            views == parsed_views(lines@),
            iter.seq() == lines@,
            line_views(res@) == eol_lines(views.take(iter.index() as int)),
            forall|i: int| 0 <= i < res@.len() ==> (#[trigger] res@[i]).pattern@.well_formed(),
    {
        proof {
            let k = iter.index() as int;
            assert(views.take(k + 1).drop_last() =~= views.take(k));
            assert(views.take(k + 1).last() == line@);
            assert(lines@[k] == line);
        }
        let ghost before = res@;
        if let Some(eol_line) = to_eol_line(line) {
            res.push(eol_line);
            proof {
                assert(line_views(res@) =~= line_views(before).push(eol_line@));
            }
        }
    }
    proof {
        assert(views.take(views.len() as int) =~= views);
    }
    res
}

/// The attributes that concern line terminators, of the `.gitattributes` files
/// of a directory and of the directories above it.
#[derive(Debug)]
pub struct GitAttributesFile {
    parent: Option<Arc<GitAttributesFile>>,
    prefix: RepoPathBuf,
    lines: Vec<GitAttributeLine>,
}

/// The lines of one `.gitattributes` file, and the directory that it is in.
pub struct Layer {
    pub prefix: Seq<Seq<char>>,
    pub lines: Seq<GitAttributeLineView>,
}

/// Whether the pattern of a line matches a path, given below the directory of
/// the line's file.
pub open spec fn line_matches(line: GitAttributeLineView, rest: Seq<Seq<char>>) -> bool {
    glob_match(line.pattern, vstd::utf8::encode_utf8(joined(rest)))
}

/// The lines that match, the last one first.
pub open spec fn matches_from_last(
    lines: Seq<GitAttributeLineView>,
    rest: Seq<Seq<char>>,
) -> Seq<GitAttributeLineView>
    decreases lines.len(),
{
    if lines.len() == 0 {
        Seq::empty()
    } else if line_matches(lines.last(), rest) {
        seq![lines.last()] + matches_from_last(lines.drop_last(), rest)
    } else {
        matches_from_last(lines.drop_last(), rest)
    }
}

/// The lines of a file that match a path, the last one first. Only paths below
/// the file's directory have any.
pub open spec fn layer_matches(layer: Layer, path: Seq<Seq<char>>) -> Seq<GitAttributeLineView> {
    match below(path, layer.prefix) {
        Some(rest) => matches_from_last(layer.lines, rest),
        None => Seq::empty(),
    }
}

/// The lines that match a path, in the order in which they count: those of the
/// first layer come first.
pub open spec fn matching_lines(layers: Seq<Layer>, path: Seq<Seq<char>>) -> Seq<
    GitAttributeLineView,
>
    decreases layers.len(),
{
    if layers.len() == 0 {
        Seq::empty()
    } else {
        layer_matches(layers[0], path) + matching_lines(layers.skip(1), path)
    }
}

impl View for GitAttributesFile {
    type V = Seq<Layer>;

    /// The layers, from the innermost directory outwards.
    closed spec fn view(&self) -> Seq<Layer> {
        layers_of(*self)
    }
}

/// The layers, from the innermost directory outwards.
spec fn layers_of(file: GitAttributesFile) -> Seq<Layer>
    decreases file,
{
    seq![Layer { prefix: file.prefix@, lines: line_views(file.lines@) }] + match file.parent {
        Some(parent) => layers_of(*parent),
        None => Seq::empty(),
    }
}

impl GitAttributesFile {
    /// Every pattern is well-formed.
    pub closed spec fn well_formed(self) -> bool
        decreases self,
    {
        &&& forall|i: int|
            0 <= i < self.lines@.len() ==> (#[trigger] self.lines@[i]).pattern@.well_formed()
        &&& self.parent matches Some(parent) ==> parent.well_formed()
    }
}

impl Default for GitAttributesFile {
    /// The root directory, without any line.
    fn default() -> (res: Self)
        ensures
            res@ == seq![Layer { prefix: Seq::empty(), lines: Seq::empty() }],
            res.well_formed(),
    {
        let res = GitAttributesFile {
            parent: None,
            prefix: RepoPathBuf::root(),
            lines: Vec::new(),
        };
        proof {
            assert(line_views(res.lines@) =~= Seq::empty());
            assert(res@ =~= seq![Layer { prefix: Seq::empty(), lines: Seq::empty() }]);
        }
        res
    }
}

/// The layers after a file with these lines was found in the directory
/// `prefix`: a file that says nothing of line terminators makes no layer.
pub open spec fn chained(
    layers: Seq<Layer>,
    prefix: Seq<Seq<char>>,
    lines: Seq<ParsedLineView>,
) -> Seq<Layer> {
    if eol_lines(lines).len() == 0 {
        layers
    } else {
        seq![Layer { prefix, lines: eol_lines(lines) }] + layers
    }
}

impl GitAttributesFile {
    /// Puts the `.gitattributes` file of the directory `prefix` before the
    /// files that are already there.
    pub fn chain(
        self: &Arc<GitAttributesFile>,
        prefix: &RepoPathBuf,
        content: &[u8],
    ) -> (res: Arc<GitAttributesFile>)
        requires
            self.well_formed(),
        ensures
            res@ == chained(self@, prefix@, parsed_lines(content@)),
            res.well_formed(),
    {
        self.chain_parsed(prefix, plumbing::parse_attributes(content))
    }

    /// Puts a `.gitattributes` file of the directory `prefix`, with these
    /// lines, before the files that are already there.
    pub fn chain_parsed(
        self: &Arc<GitAttributesFile>,
        prefix: &RepoPathBuf,
        lines: Vec<ParsedLine>,
    ) -> (res: Arc<GitAttributesFile>)
        requires
            self.well_formed(),
            parsed_well_formed(lines@),
        ensures
            res@ == chained(self@, prefix@, parsed_views(lines@)),
            res.well_formed(),
    {
        let lines = to_eol_lines(lines);
        if lines.is_empty() {
            plumbing::share(self)
        } else {
            Arc::new(
                GitAttributesFile {
                    parent: Some(plumbing::share(self)),
                    prefix: prefix.clone(),
                    lines,
                },
            )
        }
    }
}

/// The lines that match, the last one first, as they are stored.
spec fn stored_from_last(lines: Seq<GitAttributeLine>, rest: Seq<Seq<char>>) -> Seq<
    GitAttributeLine,
>
    decreases lines.len(),
{
    if lines.len() == 0 {
        Seq::empty()
    } else if line_matches(lines.last()@, rest) {
        seq![lines.last()] + stored_from_last(lines.drop_last(), rest)
    } else {
        stored_from_last(lines.drop_last(), rest)
    }
}

/// The lines of the file itself that match, the last one first.
spec fn stored_here(file: GitAttributesFile, path: Seq<Seq<char>>) -> Seq<GitAttributeLine> {
    match below(path, file.prefix@) {
        Some(rest) => stored_from_last(file.lines@, rest),
        None => Seq::empty(),
    }
}

/// How many layers there are.
spec fn depth(file: GitAttributesFile) -> nat
    decreases file,
{
    match file.parent {
        Some(parent) => depth(*parent) + 1,
        None => 0,
    }
}

/// The lines of the file and of those above it that match.
spec fn stored_matches(file: Option<&GitAttributesFile>, path: Seq<Seq<char>>) -> Seq<
    GitAttributeLine,
>
    decreases file,
{
    match file {
        Some(file) => stored_here(*file, path) + match file.parent {
            Some(parent) => stored_matches(Some(&*parent), path),
            None => Seq::empty(),
        },
        None => Seq::empty(),
    }
}

/// Whether `answer` is the first answer that `visitor` gives to a line, of
/// those that are not `None`; `None` if there is no such line.
pub open spec fn first_answer<'a, T, F: FnMut(&'a GitAttributeLine) -> Option<T>>(
    visitor: F,
    lines: Seq<GitAttributeLine>,
    answer: Option<T>,
) -> bool
    decreases lines.len(),
{
    if lines.len() == 0 {
        answer is None
    } else {
        ||| answer is Some && call_ensures(visitor, (&lines[0],), answer)
        ||| call_ensures(visitor, (&lines[0],), None) && first_answer(
            visitor,
            lines.skip(1),
            answer,
        )
    }
}

/// Whether `tail` is what `all` ends in.
spec fn is_tail(tail: Seq<GitAttributeLine>, all: Seq<GitAttributeLine>) -> bool {
    tail.len() <= all.len() && tail == all.skip(all.len() - tail.len())
}

/// Whether the first answer to `tail` is the first answer to `all`.
spec fn leads_to<'a, T, F: FnMut(&'a GitAttributeLine) -> Option<T>>(
    visitor: F,
    tail: Seq<GitAttributeLine>,
    all: Seq<GitAttributeLine>,
) -> bool {
    forall|answer: Option<T>| #[trigger]
        first_answer(visitor, tail, answer) ==> first_answer(visitor, all, answer)
}

proof fn lemma_stored_from_last(lines: Seq<GitAttributeLine>, rest: Seq<Seq<char>>)
    ensures
        line_views(stored_from_last(lines, rest)) == matches_from_last(line_views(lines), rest),
    decreases lines.len(),
{
    if lines.len() > 0 {
        lemma_stored_from_last(lines.drop_last(), rest);
        assert(line_views(lines.drop_last()) =~= line_views(lines).drop_last());
        assert(line_views(stored_from_last(lines, rest)) =~= matches_from_last(
            line_views(lines),
            rest,
        ));
    } else {
        assert(line_views(stored_from_last(lines, rest)) =~= matches_from_last(
            line_views(lines),
            rest,
        ));
    }
}

proof fn lemma_stored_matches(file: &GitAttributesFile, path: Seq<Seq<char>>)
    ensures
        line_views(stored_matches(Some(file), path)) == matching_lines(layers_of(*file), path),
    decreases file,
{
    let layers = layers_of(*file);
    let here = stored_here(*file, path);
    if let Some(rest) = below(path, file.prefix@) {
        lemma_stored_from_last(file.lines@, rest);
    } else {
        assert(line_views(here) =~= Seq::empty());
    }
    assert(line_views(here) == layer_matches(layers[0], path));
    match &file.parent {
        Some(parent) => {
            lemma_stored_matches(&**parent, path);
            assert(layers.skip(1) =~= layers_of(**parent));
            assert(line_views(stored_matches(Some(file), path)) =~= line_views(here)
                + line_views(stored_matches(Some(&**parent), path)));
        },
        None => {
            assert(layers.skip(1) =~= Seq::empty());
            assert(matching_lines(layers.skip(1), path) =~= Seq::empty());
            assert(stored_matches(Some(file), path) =~= here);
            assert(matching_lines(layers, path) =~= layer_matches(layers[0], path));
        },
    }
}

impl GitAttributesFile {
    /// The lines that match are those of the layers.
    pub proof fn lemma_matches(&self, path: Seq<Seq<char>>)
        ensures
            line_views(self.matches(path)) == matching_lines(self@, path),
    {
        lemma_stored_matches(self, path);
    }

    /// The lines that match a path, in the order in which they count.
    pub closed spec fn matches(self, path: Seq<Seq<char>>) -> Seq<GitAttributeLine> {
        stored_matches(Some(&self), path)
    }

    /// Shows the lines that match `path` to `visitor`, until it gives an answer:
    /// the files from the innermost directory outwards, and each file from its
    /// last line upwards.
    pub fn visit_matches<'a, T, F: FnMut(&'a GitAttributeLine) -> Option<T>>(
        &'a self,
        path: &RepoPathBuf,
        visitor: F,
    ) -> (res: Option<T>)
        requires
            self.well_formed(),
            forall|i: int|
                0 <= i < self.matches(path@).len() ==> call_requires(
                    visitor,
                    (&#[trigger] self.matches(path@)[i],),
                ),
        ensures
            first_answer(visitor, self.matches(path@), res),
            line_views(self.matches(path@)) == matching_lines(self@, path@),
    {
        let mut current: Option<&'a GitAttributesFile> = Some(self);
        let mut visit = visitor;
        let ghost all = self.matches(path@);
        proof {
            assert(stored_matches(current, path@) =~= all.skip(0));
        }
        loop
            invariant
                current matches Some(file) ==> file.well_formed(),
                visit == visitor,
                all == self.matches(path@),
                forall|i: int|
                    0 <= i < all.len() ==> call_requires(visitor, (&#[trigger] all[i],)),
                is_tail(stored_matches(current, path@), all),
                leads_to(visitor, stored_matches(current, path@), all),
            decreases
                    match current {
                        Some(file) => depth(*file) + 1,
                        None => 0,
                    },
        {
            let file: &'a GitAttributesFile = match current {
                Some(file) => file,
                None => {
                    proof {
                        assert(first_answer(visitor, stored_matches(current, path@), None));
                        self.lemma_matches(path@);
                    }
                    return None;
                },
            };
            let next: Option<&'a GitAttributesFile> = match &file.parent {
                Some(parent) => Some(parent),
                None => None,
            };
            let ghost outer = stored_matches(next, path@);
            proof {
                assert(stored_matches(current, path@) =~= stored_here(*file, path@) + outer);
                assert(Seq::<GitAttributeLine>::empty() + outer =~= outer);
            }
            if let Some(rest_path) = path.strip_prefix(&file.prefix) {
                let rest: String = rest_path.as_internal_file_string();
                let mut i: usize = file.lines.len();
                proof {
                    assert(file.lines@.take(i as int) =~= file.lines@);
                }
                while i > 0
                    invariant
                        file.well_formed(),
                        i <= file.lines@.len(),
                        rest@ == joined(rest_path@),
                        visit == visitor,
                        all == self.matches(path@),
                        forall|i: int|
                            0 <= i < all.len() ==> call_requires(visitor, (&#[trigger] all[i],)),
                        is_tail(
                            stored_from_last(file.lines@.take(i as int), rest_path@) + outer,
                            all,
                        ),
                        leads_to(
                            visitor,
                            stored_from_last(file.lines@.take(i as int), rest_path@) + outer,
                            all,
                        ),
                    decreases i,
                {
                    let ghost here = stored_from_last(file.lines@.take(i as int), rest_path@)
                        + outer;
                    proof {
                        assert(file.lines@.take(i as int).drop_last() =~= file.lines@.take(i - 1));
                        assert(file.lines@.take(i as int).last() == file.lines@[i - 1]);
                    }
                    i -= 1;
                    let ghost after = stored_from_last(file.lines@.take(i as int), rest_path@)
                        + outer;
                    let line: &'a GitAttributeLine = &file.lines[i];
                    if !plumbing::pattern_matches(&line.pattern, rest.as_str().as_bytes()) {
                        continue;
                    }
                    proof {
                        assert(here.skip(1) =~= after);
                        assert(here[0] == *line);
                        assert(all[all.len() - here.len()] == *line);
                        assert(after =~= all.skip(all.len() - after.len()));
                    }
                    let answer: Option<T> = visit(line);
                    if answer.is_some() {
                        proof {
                            assert(first_answer(visitor, here, answer));
                            self.lemma_matches(path@);
                        }
                        return answer;
                    }
                    proof {
                        assert forall|later: Option<T>| #[trigger]
                            first_answer(visitor, after, later) implies first_answer(
                            visitor,
                            all,
                            later,
                        ) by {
                            assert(first_answer(visitor, here, later));
                        }
                    }
                }
                proof {
                    assert(stored_from_last(file.lines@.take(0), rest_path@) + outer =~= outer);
                }
            }
            current = next;
        }
    }
}

/// The first of the states that `given` finds on the lines.
pub open spec fn first_given(
    lines: Seq<GitAttributeLineView>,
    given: spec_fn(GitAttributeLineView) -> Option<StateView>,
) -> Option<StateView>
    decreases lines.len(),
{
    if lines.len() == 0 {
        None
    } else if given(lines[0]) is Some {
        given(lines[0])
    } else {
        first_given(lines.skip(1), given)
    }
}

/// The state that the first line with a state for `eol` gives it.
pub open spec fn first_eol(lines: Seq<GitAttributeLineView>) -> Option<StateView> {
    first_given(lines, |line: GitAttributeLineView| line.eol)
}

/// The state that the first line with a state for `text` gives it.
pub open spec fn first_text(lines: Seq<GitAttributeLineView>) -> Option<StateView> {
    first_given(lines, |line: GitAttributeLineView| line.text)
}

/// The state of the `eol` attribute of a path.
pub open spec fn eol_attribute(layers: Seq<Layer>, path: Seq<Seq<char>>) -> Option<StateView> {
    first_eol(matching_lines(layers, path))
}

/// The state of the `text` attribute of a path.
pub open spec fn text_attribute(layers: Seq<Layer>, path: Seq<Seq<char>>) -> Option<StateView> {
    first_text(matching_lines(layers, path))
}

/// The view of a state that may not be given.
pub open spec fn state_ref_view(state: Option<&State>) -> Option<StateView> {
    match state {
        Some(state) => Some(state@),
        None => None,
    }
}

/// The state that a line gives `eol`.
fn line_eol<'a>(line: &'a GitAttributeLine) -> (res: Option<&'a State>)
    ensures
        state_ref_view(res) == line@.eol,
{
    line.eol.as_ref()
}

/// The state that a line gives `text`.
fn line_text<'a>(line: &'a GitAttributeLine) -> (res: Option<&'a State>)
    ensures
        state_ref_view(res) == line@.text,
{
    line.text.as_ref()
}

/// A visitor that answers with the state that `given` finds gets the first one.
proof fn lemma_first_given<'a, F: FnMut(&'a GitAttributeLine) -> Option<&'a State>>(
    visitor: F,
    given: spec_fn(GitAttributeLineView) -> Option<StateView>,
    lines: Seq<GitAttributeLine>,
    answer: Option<&'a State>,
)
    requires
        first_answer(visitor, lines, answer),
        forall|line: &'a GitAttributeLine, state: Option<&'a State>| #[trigger]
            call_ensures(visitor, (line,), state) ==> state_ref_view(state) == given(line@),
    ensures
        state_ref_view(answer) == first_given(line_views(lines), given),
    decreases lines.len(),
{
    if lines.len() > 0 {
        assert(line_views(lines).skip(1) =~= line_views(lines.skip(1)));
        if !(answer is Some && call_ensures(visitor, (&lines[0],), answer)) {
            lemma_first_given(visitor, given, lines.skip(1), answer);
        }
    }
}

impl GitAttributesFile {
    /// The state of the `eol` attribute of `path`, if a line gives it one.
    pub fn eol_state<'a>(&'a self, path: &RepoPathBuf) -> (res: Option<&'a State>)
        requires
            self.well_formed(),
        ensures
            state_ref_view(res) == eol_attribute(self@, path@),
    {
        let res = self.visit_matches(path, line_eol);
        proof {
            let given = |line: GitAttributeLineView| line.eol;
            lemma_first_given(line_eol, given, self.matches(path@), res);
        }
        res
    }

    /// The state of the `text` attribute of `path`, if a line gives it one.
    pub fn text_state<'a>(&'a self, path: &RepoPathBuf) -> (res: Option<&'a State>)
        requires
            self.well_formed(),
        ensures
            state_ref_view(res) == text_attribute(self@, path@),
    {
        let res = self.visit_matches(path, line_text);
        proof {
            let given = |line: GitAttributeLineView| line.text;
            lemma_first_given(line_text, given, self.matches(path@), res);
        }
        res
    }
}

} // verus!
