//! Which lines of `.gitattributes` files decide on the attributes of a path.
use vstd::prelude::*;
use vstd::utf8::encode_utf8;

use crate::git_attributes::{
    chained, eol_attribute, eol_line, eol_lines, first_answer, first_given, last_state,
    layer_matches, line_views, matches_from_last, matching_lines, parsed_views, state_ref_view,
    state_view, text_attribute, Assignment, AssignmentView, GitAttributeLine, GitAttributeLineView,
    Layer, ParsedLine, ParsedLineView, PatternView, State, StateView,
};
use crate::plumbing::glob_match;
use crate::repo_path::{below, joined};

use super::{law_inner_lines_first, lemma_first_of_both};

verus! {

/// Whether line `i` of layer `k` applies to a path: the path is in the directory
/// of the layer, and from there on its text matches the pattern of the line.
pub open spec fn applies(layers: Seq<Layer>, path: Seq<Seq<char>>, k: int, i: int) -> bool {
    &&& 0 <= k < layers.len()
    &&& 0 <= i < layers[k].lines.len()
    &&& layers[k].prefix.is_prefix_of(path)
    &&& glob_match(
        layers[k].lines[i].pattern,
        encode_utf8(joined(path.skip(layers[k].prefix.len() as int))),
    )
}

/// The attributes of a path are decided by the first layer that has a line which
/// applies to the path and gives the attribute a state, and there by the last
/// such line.
pub proof fn law_deciding_line(layers: Seq<Layer>, path: Seq<Seq<char>>, k: int, i: int)
    requires
        applies(layers, path, k, i),
    ensures
        layers[k].lines[i].text is Some && (forall|l: int, j: int| #[trigger]
            applies(layers, path, l, j) && (l < k || l == k && j > i)
                ==> layers[l].lines[j].text is None) ==> text_attribute(layers, path)
            == layers[k].lines[i].text,
        layers[k].lines[i].eol is Some && (forall|l: int, j: int| #[trigger]
            applies(layers, path, l, j) && (l < k || l == k && j > i)
                ==> layers[l].lines[j].eol is None) ==> eol_attribute(layers, path)
            == layers[k].lines[i].eol,
{
    lemma_deciding_line(layers, path, k, i, |line: GitAttributeLineView| line.text);
    lemma_deciding_line(layers, path, k, i, |line: GitAttributeLineView| line.eol);
}

/// A path has no state for an attribute if and only if no line that applies to it
/// gives the attribute one.
pub proof fn law_no_deciding_line(layers: Seq<Layer>, path: Seq<Seq<char>>)
    ensures
        text_attribute(layers, path) is None <==> forall|k: int, i: int| #[trigger]
            applies(layers, path, k, i) ==> layers[k].lines[i].text is None,
        eol_attribute(layers, path) is None <==> forall|k: int, i: int| #[trigger]
            applies(layers, path, k, i) ==> layers[k].lines[i].eol is None,
{
    lemma_no_deciding_line(layers, path, |line: GitAttributeLineView| line.text);
    lemma_no_deciding_line(layers, path, |line: GitAttributeLineView| line.eol);
}

proof fn lemma_in_layer(
    lines: Seq<GitAttributeLineView>,
    rest: Seq<Seq<char>>,
    given: spec_fn(GitAttributeLineView) -> Option<StateView>,
)
    ensures
        forall|i: int|
            0 <= i < lines.len() && glob_match(
                (#[trigger] lines[i]).pattern,
                encode_utf8(joined(rest)),
            ) && given(lines[i]) is Some && (forall|j: int|
                i < j < lines.len() && glob_match(
                    (#[trigger] lines[j]).pattern,
                    encode_utf8(joined(rest)),
                ) ==> given(lines[j]) is None) ==> first_given(
                matches_from_last(lines, rest),
                given,
            ) == given(lines[i]),
        first_given(matches_from_last(lines, rest), given) is None <==> forall|i: int|
            0 <= i < lines.len() && glob_match(
                (#[trigger] lines[i]).pattern,
                encode_utf8(joined(rest)),
            ) ==> given(lines[i]) is None,
    decreases lines.len(),
{
    let text = encode_utf8(joined(rest));
    let all = matches_from_last(lines, rest);
    if lines.len() > 0 {
        let before = lines.drop_last();
        let n = lines.len() - 1;
        lemma_in_layer(before, rest, given);
        assert forall|i: int| 0 <= i < n implies before[i] == #[trigger] lines[i] by {}
        let found = first_given(matches_from_last(before, rest), given);
        if glob_match(lines[n].pattern, text) {
            assert(all[0] == lines[n]);
            assert(all.skip(1) =~= matches_from_last(before, rest));
        }
        let decides = glob_match(lines[n].pattern, text) && given(lines[n]) is Some;
        assert(first_given(all, given) == (if decides {
            given(lines[n])
        } else {
            found
        }));
        assert forall|i: int|
            0 <= i < lines.len() && glob_match((#[trigger] lines[i]).pattern, text) && given(
                lines[i],
            ) is Some && (forall|j: int|
                i < j < lines.len() && glob_match((#[trigger] lines[j]).pattern, text) ==> given(
                    lines[j],
                ) is None) implies first_given(all, given) == given(lines[i]) by {
            if i < n {
                assert(!decides);
                assert(before[i] == lines[i]);
                assert forall|j: int|
                    i < j < before.len() && glob_match((#[trigger] before[j]).pattern, text) implies given(
                before[j]) is None by {
                    assert(before[j] == lines[j]);
                }
            }
        }
        if decides {
            assert(given(lines[n]) is Some);
        } else if found is None {
            assert forall|i: int|
                0 <= i < lines.len() && glob_match((#[trigger] lines[i]).pattern, text) implies given(
            lines[i]) is None by {
                if i < n {
                    assert(before[i] == lines[i]);
                }
            }
        } else {
            let i = choose|i: int|
                0 <= i < before.len() && glob_match((#[trigger] before[i]).pattern, text) && given(
                    before[i],
                ) is Some;
            assert(before[i] == lines[i]);
        }
    }
}

proof fn lemma_deciding_line(
    layers: Seq<Layer>,
    path: Seq<Seq<char>>,
    k: int,
    i: int,
    given: spec_fn(GitAttributeLineView) -> Option<StateView>,
)
    requires
        applies(layers, path, k, i),
    ensures
        given(layers[k].lines[i]) is Some && (forall|l: int, j: int| #[trigger]
            applies(layers, path, l, j) && (l < k || l == k && j > i) ==> given(
                layers[l].lines[j],
            ) is None) ==> first_given(matching_lines(layers, path), given) == given(
            layers[k].lines[i],
        ),
    decreases layers.len(),
{
    if given(layers[k].lines[i]) is Some && forall|l: int, j: int| #[trigger]
        applies(layers, path, l, j) && (l < k || l == k && j > i) ==> given(
            layers[l].lines[j],
        ) is None {
        let outer = layers.skip(1);
        let here = layer_matches(layers[0], path);
        lemma_first_of_both(here, matching_lines(outer, path), given);
        if layers[0].prefix.is_prefix_of(path) {
            let lines = layers[0].lines;
            let rest = path.skip(layers[0].prefix.len() as int);
            let text = encode_utf8(joined(rest));
            lemma_in_layer(lines, rest, given);
            assert forall|j: int|
                (k > 0 || j > i) && 0 <= j < lines.len() && glob_match(
                    (#[trigger] lines[j]).pattern,
                    text,
                ) implies given(lines[j]) is None by {
                assert(applies(layers, path, 0, j));
            }
            if k == 0 {
                assert(first_given(here, given) == given(lines[i]));
            } else {
                assert(first_given(here, given) is None);
            }
        }
        if k > 0 {
            assert(outer[k - 1] == layers[k]);
            assert forall|l: int, j: int| #[trigger]
                applies(outer, path, l, j) && (l < k - 1 || l == k - 1 && j > i) implies given(
                outer[l].lines[j],
            ) is None by {
                assert(outer[l] == layers[l + 1]);
                assert(applies(layers, path, l + 1, j));
            }
            lemma_deciding_line(outer, path, k - 1, i, given);
        }
    }
}

proof fn lemma_no_deciding_line(
    layers: Seq<Layer>,
    path: Seq<Seq<char>>,
    given: spec_fn(GitAttributeLineView) -> Option<StateView>,
)
    ensures
        first_given(matching_lines(layers, path), given) is None <==> forall|k: int, i: int|
            #[trigger]
            applies(layers, path, k, i) ==> given(layers[k].lines[i]) is None,
    decreases layers.len(),
{
    if layers.len() > 0 {
        let outer = layers.skip(1);
        let here = layer_matches(layers[0], path);
        let lines = layers[0].lines;
        let rest = path.skip(layers[0].prefix.len() as int);
        let text = encode_utf8(joined(rest));
        lemma_first_of_both(here, matching_lines(outer, path), given);
        lemma_no_deciding_line(outer, path, given);
        lemma_in_layer(lines, rest, given);
        if first_given(here, given) is Some {
            let i = choose|i: int|
                0 <= i < lines.len() && glob_match((#[trigger] lines[i]).pattern, text) && given(
                    lines[i],
                ) is Some;
            assert(applies(layers, path, 0, i));
        } else if first_given(matching_lines(outer, path), given) is Some {
            let (k, i) = choose|k: int, i: int| #[trigger]
                applies(outer, path, k, i) && given(outer[k].lines[i]) is Some;
            assert(outer[k] == layers[k + 1]);
            assert(applies(layers, path, k + 1, i));
        } else {
            assert forall|k: int, i: int| #[trigger] applies(layers, path, k, i) implies given(
                layers[k].lines[i],
            ) is None by {
                if k == 0 {
                    assert(lines[i] == layers[0].lines[i]);
                } else {
                    assert(outer[k - 1] == layers[k]);
                    assert(applies(outer, path, k - 1, i));
                }
            }
        }
    }
}

/// The lines that match a path come layer by layer.
pub proof fn law_layers_in_order(a: Seq<Layer>, b: Seq<Layer>, path: Seq<Seq<char>>)
    ensures
        matching_lines(a + b, path) == matching_lines(a, path) + matching_lines(b, path),
    decreases a.len(),
{
    if a.len() == 0 {
        assert(a + b =~= b);
        assert(matching_lines(a, path) + matching_lines(b, path) =~= matching_lines(b, path));
    } else {
        law_layers_in_order(a.skip(1), b, path);
        assert((a + b).skip(1) =~= a.skip(1) + b);
        assert(matching_lines(a + b, path) =~= matching_lines(a, path) + matching_lines(b, path));
    }
}

/// Within a layer, later lines come first.
pub proof fn law_later_lines_first(
    prefix: Seq<Seq<char>>,
    a: Seq<GitAttributeLineView>,
    b: Seq<GitAttributeLineView>,
    path: Seq<Seq<char>>,
)
    ensures
        matching_lines(seq![Layer { prefix, lines: a + b }], path) == matching_lines(
            seq![Layer { prefix, lines: b }],
            path,
        ) + matching_lines(seq![Layer { prefix, lines: a }], path),
{
    lemma_one_layer(Layer { prefix, lines: a + b }, path);
    lemma_one_layer(Layer { prefix, lines: a }, path);
    lemma_one_layer(Layer { prefix, lines: b }, path);
    if let Some(rest) = below(path, prefix) {
        lemma_later_first(a, b, rest);
    }
}

proof fn lemma_one_layer(layer: Layer, path: Seq<Seq<char>>)
    ensures
        matching_lines(seq![layer], path) == layer_matches(layer, path),
{
    let layers = seq![layer];
    assert(layers.skip(1) =~= Seq::empty());
    assert(matching_lines(layers.skip(1), path) =~= Seq::empty());
    assert(matching_lines(layers, path) =~= layer_matches(layer, path));
}

proof fn lemma_later_first(
    a: Seq<GitAttributeLineView>,
    b: Seq<GitAttributeLineView>,
    rest: Seq<Seq<char>>,
)
    ensures
        matches_from_last(a + b, rest) == matches_from_last(b, rest) + matches_from_last(a, rest),
    decreases b.len(),
{
    if b.len() == 0 {
        assert(a + b =~= a);
        assert(matches_from_last(b, rest) + matches_from_last(a, rest) =~= matches_from_last(
            a,
            rest,
        ));
    } else {
        lemma_later_first(a, b.drop_last(), rest);
        assert((a + b).drop_last() =~= a + b.drop_last());
        assert(matches_from_last(a + b, rest) =~= matches_from_last(b, rest) + matches_from_last(
            a,
            rest,
        ));
    }
}

/// A line matches a path if and only if the path is in the directory of the
/// line's file and its text from there on matches the pattern, whatever the path
/// is.
pub proof fn law_line_by_glob(
    prefix: Seq<Seq<char>>,
    line: GitAttributeLineView,
    path: Seq<Seq<char>>,
)
    ensures
        matching_lines(seq![Layer { prefix, lines: seq![line] }], path) == (if prefix.is_prefix_of(
            path,
        ) && glob_match(
            line.pattern,
            encode_utf8(joined(path.skip(prefix.len() as int))),
        ) {
            seq![line]
        } else {
            Seq::empty()
        }),
        matching_lines(seq![Layer { prefix, lines: Seq::empty() }], path) == Seq::<
            GitAttributeLineView,
        >::empty(),
        matching_lines(Seq::empty(), path) == Seq::<GitAttributeLineView>::empty(),
{
    lemma_one_layer(Layer { prefix, lines: seq![line] }, path);
    lemma_one_layer(Layer { prefix, lines: Seq::empty() }, path);
    assert(seq![line].drop_last() =~= Seq::empty());
    if let Some(rest) = below(path, prefix) {
        assert(matches_from_last(seq![line].drop_last(), rest) =~= Seq::empty());
        assert(matches_from_last(seq![line], rest) =~= if glob_match(
            line.pattern,
            encode_utf8(joined(rest)),
        ) {
            seq![line]
        } else {
            Seq::empty()
        });
    }
}

/// A visitor's first answer to lines is its answer to one of them, after it gave
/// none to each before; and `None` if it gave none to all.
pub proof fn law_first_answer<'a, T, F: FnMut(&'a GitAttributeLine) -> Option<T>>(
    visitor: F,
    lines: Seq<GitAttributeLine>,
    answer: Option<T>,
)
    ensures
        first_answer(visitor, lines, answer) <==> if answer is Some {
            exists|i: int|
                0 <= i < lines.len() && call_ensures(visitor, (&#[trigger] lines[i],), answer) && (
                forall|j: int|
                    0 <= j < i ==> call_ensures(visitor, (&#[trigger] lines[j],), None))
        } else {
            forall|i: int|
                0 <= i < lines.len() ==> call_ensures(visitor, (&#[trigger] lines[i],), None)
        },
    decreases lines.len(),
{
    if lines.len() > 0 {
        let tail = lines.skip(1);
        law_first_answer(visitor, tail, answer);
        assert forall|i: int| 0 <= i < tail.len() implies #[trigger] tail[i] == lines[i + 1] by {}
        if answer is Some {
            if first_answer(visitor, lines, answer) && !call_ensures(visitor, (&lines[0],), answer) {
                let i = choose|i: int|
                    0 <= i < tail.len() && call_ensures(
                        visitor,
                        (&#[trigger] tail[i],),
                        answer,
                    ) && (forall|j: int|
                        0 <= j < i ==> call_ensures(visitor, (&#[trigger] tail[j],), None));
                assert(tail[i] == lines[i + 1]);
                assert forall|j: int| 0 <= j < i + 1 implies call_ensures(
                    visitor,
                    (&#[trigger] lines[j],),
                    None,
                ) by {
                    if j > 0 {
                        assert(tail[j - 1] == lines[j]);
                    }
                }
            }
            if exists|i: int|
                0 <= i < lines.len() && call_ensures(visitor, (&#[trigger] lines[i],), answer) && (
                forall|j: int|
                    0 <= j < i ==> call_ensures(visitor, (&#[trigger] lines[j],), None)) {
                let i = choose|i: int|
                    0 <= i < lines.len() && call_ensures(visitor, (&#[trigger] lines[i],), answer)
                        && (forall|j: int|
                        0 <= j < i ==> call_ensures(visitor, (&#[trigger] lines[j],), None));
                if i > 0 {
                    assert(call_ensures(visitor, (&lines[0],), None));
                    assert(tail[i - 1] == lines[i]);
                    assert forall|j: int| 0 <= j < i - 1 implies call_ensures(
                        visitor,
                        (&#[trigger] tail[j],),
                        None,
                    ) by {
                        assert(tail[j] == lines[j + 1]);
                    }
                    assert(first_answer(visitor, tail, answer));
                }
            }
        } else {
            if first_answer(visitor, lines, answer) {
                assert forall|i: int| 0 <= i < lines.len() implies call_ensures(
                    visitor,
                    (&#[trigger] lines[i],),
                    None,
                ) by {
                    if i > 0 {
                        assert(tail[i - 1] == lines[i]);
                    }
                }
            }
            if forall|i: int|
                0 <= i < lines.len() ==> call_ensures(visitor, (&#[trigger] lines[i],), None) {
                assert(call_ensures(visitor, (&lines[0],), None));
                assert forall|i: int| 0 <= i < tail.len() implies call_ensures(
                    visitor,
                    (&#[trigger] tail[i],),
                    None,
                ) by {
                    assert(tail[i] == lines[i + 1]);
                }
            }
        }
    }
}

/// Whether attribute `j` of a line is valid and has this name.
pub open spec fn is_named(attrs: Seq<Option<AssignmentView>>, j: int, name: Seq<char>) -> bool {
    0 <= j < attrs.len() && attrs[j] is Some && attrs[j]->0.name == name
}

/// Whether a line gives an attribute a state.
pub open spec fn mentions(attrs: Seq<Option<AssignmentView>>, name: Seq<char>) -> bool {
    exists|j: int| is_named(attrs, j, name)
}

/// The last state that a line gives an attribute counts, whatever other
/// attributes follow, and there is none only if the line does not mention the
/// attribute.
pub proof fn law_last_mention_counts(attrs: Seq<Option<AssignmentView>>, name: Seq<char>, j: int)
    ensures
        is_named(attrs, j, name) && (forall|l: int| l > j ==> !#[trigger] is_named(attrs, l, name))
            ==> last_state(attrs, name) == Some(attrs[j]->0.state),
        last_state(attrs, name) is None <==> !mentions(attrs, name),
    decreases attrs.len(),
{
    if attrs.len() > 0 {
        let before = attrs.drop_last();
        let n = attrs.len() - 1;
        law_last_mention_counts(before, name, j);
        assert forall|l: int| l < n implies #[trigger] is_named(before, l, name) == is_named(
            attrs,
            l,
            name,
        ) by {}
        assert(is_named(attrs, n, name) <==> attrs[n] is Some && attrs[n]->0.name == name);
        if is_named(attrs, j, name) && (forall|l: int|
            l > j ==> !#[trigger] is_named(attrs, l, name)) {
            if j < n {
                assert(!is_named(attrs, n, name));
                assert(is_named(before, j, name));
                assert forall|l: int| l > j implies !#[trigger] is_named(before, l, name) by {
                    assert(!is_named(attrs, l, name));
                }
            }
        }
        if mentions(before, name) {
            let l = choose|l: int| is_named(before, l, name);
            assert(is_named(attrs, l, name));
        } else if mentions(attrs, name) {
            let l = choose|l: int| is_named(attrs, l, name);
            assert(l == n) by {
                if l < n {
                    assert(is_named(before, l, name));
                }
            }
        }
    }
}

/// A line is kept, with its own pattern, if and only if it mentions `text` or
/// `eol`; what it says of each is the last that it says, whatever else it says.
pub proof fn law_kept_line(pattern: PatternView, attrs: Seq<Option<AssignmentView>>, j: int)
    ensures
        ({
            let kept = eol_line(ParsedLineView::Pattern { pattern, attrs });
            &&& kept is Some <==> mentions(attrs, "text"@) || mentions(attrs, "eol"@)
            &&& kept matches Some(line) ==> {
                &&& line.pattern == pattern
                &&& line.text is Some <==> mentions(attrs, "text"@)
                &&& line.eol is Some <==> mentions(attrs, "eol"@)
                &&& is_named(attrs, j, "text"@) && (forall|l: int|
                    l > j ==> !#[trigger] is_named(attrs, l, "text"@)) ==> line.text == Some(
                    attrs[j]->0.state,
                )
                &&& is_named(attrs, j, "eol"@) && (forall|l: int|
                    l > j ==> !#[trigger] is_named(attrs, l, "eol"@)) ==> line.eol == Some(
                    attrs[j]->0.state,
                )
            }
        }),
        eol_line(ParsedLineView::Macro) is None,
        eol_line(ParsedLineView::Invalid) is None,
{
    law_last_mention_counts(attrs, "text"@, j);
    law_last_mention_counts(attrs, "eol"@, j);
}

/// The lines of a file are kept or left out each by itself, and stay in order.
pub proof fn law_kept_lines(a: Seq<ParsedLineView>, b: Seq<ParsedLineView>, line: ParsedLineView)
    ensures
        eol_lines(a + b) == eol_lines(a) + eol_lines(b),
        eol_lines(seq![line]) == (match eol_line(line) {
            Some(kept) => seq![kept],
            None => Seq::empty(),
        }),
        eol_lines(Seq::empty()) == Seq::<GitAttributeLineView>::empty(),
    decreases b.len(),
{
    assert(seq![line].drop_last() =~= Seq::empty());
    assert(eol_lines(seq![line].drop_last()) =~= Seq::empty());
    assert(eol_lines(seq![line]) =~= match eol_line(line) {
        Some(kept) => seq![kept],
        None => Seq::empty(),
    });
    if b.len() == 0 {
        assert(a + b =~= a);
        assert(eol_lines(a) + eol_lines(b) =~= eol_lines(a));
    } else {
        law_kept_lines(a, b.drop_last(), line);
        assert((a + b).drop_last() =~= a + b.drop_last());
        assert(eol_lines(a + b) =~= eol_lines(a) + eol_lines(b));
    }
}

/// Whether line `i` of a file gives an attribute a state for what has this path
/// below the directory of the file.
pub open spec fn says(
    lines: Seq<ParsedLineView>,
    i: int,
    rest: Seq<Seq<char>>,
    name: Seq<char>,
) -> bool {
    &&& 0 <= i < lines.len()
    &&& lines[i] matches ParsedLineView::Pattern { pattern, attrs }
    &&& glob_match(pattern, encode_utf8(joined(rest)))
    &&& mentions(attrs, name)
}

/// The last line of a file that matches a path and mentions an attribute decides
/// on it for the paths in the file's directory, before all files that were there,
/// by the last state that the line gives it.
pub proof fn law_attribute_from_file(
    layers: Seq<Layer>,
    prefix: Seq<Seq<char>>,
    lines: Seq<ParsedLineView>,
    rest: Seq<Seq<char>>,
    i: int,
    j: int,
)
    requires
        0 <= i < lines.len(),
        lines[i] is Pattern,
    ensures
        says(lines, i, rest, "text"@) && (forall|l: int|
            l > i ==> !#[trigger] says(lines, l, rest, "text"@)) && is_named(
            lines[i]->attrs,
            j,
            "text"@,
        ) && (forall|l: int| l > j ==> !#[trigger] is_named(lines[i]->attrs, l, "text"@))
            ==> text_attribute(chained(layers, prefix, lines), prefix + rest) == Some(
            lines[i]->attrs[j]->0.state,
        ),
        says(lines, i, rest, "eol"@) && (forall|l: int|
            l > i ==> !#[trigger] says(lines, l, rest, "eol"@)) && is_named(
            lines[i]->attrs,
            j,
            "eol"@,
        ) && (forall|l: int| l > j ==> !#[trigger] is_named(lines[i]->attrs, l, "eol"@))
            ==> eol_attribute(chained(layers, prefix, lines), prefix + rest) == Some(
            lines[i]->attrs[j]->0.state,
        ),
{
    let path = prefix + rest;
    let inner = matches_from_last(eol_lines(lines), rest);
    assert(path.skip(prefix.len() as int) =~= rest);
    assert(prefix =~= path.take(prefix.len() as int));
    law_inner_lines_first(layers, prefix, lines, path);
    let text = |line: GitAttributeLineView| line.text;
    let eol = |line: GitAttributeLineView| line.eol;
    lemma_first_of_both(inner, matching_lines(layers, path), text);
    lemma_first_of_both(inner, matching_lines(layers, path), eol);
    law_last_mention_counts(lines[i]->attrs, "text"@, j);
    law_last_mention_counts(lines[i]->attrs, "eol"@, j);
    lemma_file_says(lines, rest, "text"@, text, i);
    lemma_file_says(lines, rest, "eol"@, eol, i);
}

/// A file that says nothing of an attribute of a path leaves it to the files that
/// were there, and so does one in another directory.
pub proof fn law_attribute_not_from_file(
    layers: Seq<Layer>,
    prefix: Seq<Seq<char>>,
    lines: Seq<ParsedLineView>,
    path: Seq<Seq<char>>,
)
    ensures
        !prefix.is_prefix_of(path) || (forall|i: int|
            !#[trigger] says(lines, i, path.skip(prefix.len() as int), "text"@)) ==> text_attribute(
            chained(layers, prefix, lines),
            path,
        ) == text_attribute(layers, path),
        !prefix.is_prefix_of(path) || (forall|i: int|
            !#[trigger] says(lines, i, path.skip(prefix.len() as int), "eol"@)) ==> eol_attribute(
            chained(layers, prefix, lines),
            path,
        ) == eol_attribute(layers, path),
{
    let rest = path.skip(prefix.len() as int);
    let inner = matches_from_last(eol_lines(lines), rest);
    law_inner_lines_first(layers, prefix, lines, path);
    let text = |line: GitAttributeLineView| line.text;
    let eol = |line: GitAttributeLineView| line.eol;
    if prefix.is_prefix_of(path) {
        lemma_first_of_both(inner, matching_lines(layers, path), text);
        lemma_first_of_both(inner, matching_lines(layers, path), eol);
        lemma_file_says(lines, rest, "text"@, text, 0);
        lemma_file_says(lines, rest, "eol"@, eol, 0);
    } else {
        assert(matching_lines(chained(layers, prefix, lines), path) =~= matching_lines(
            layers,
            path,
        ));
    }
}

proof fn lemma_file_says(
    lines: Seq<ParsedLineView>,
    rest: Seq<Seq<char>>,
    name: Seq<char>,
    given: spec_fn(GitAttributeLineView) -> Option<StateView>,
    i: int,
)
    requires
        name == "text"@ && (forall|line: GitAttributeLineView| #[trigger] given(line) == line.text)
            || name == "eol"@ && (forall|line: GitAttributeLineView| #[trigger]
            given(line) == line.eol),
    ensures
        ({
            let found = first_given(matches_from_last(eol_lines(lines), rest), given);
            &&& says(lines, i, rest, name) && (forall|l: int|
                l > i ==> !#[trigger] says(lines, l, rest, name)) ==> found == last_state(
                lines[i]->attrs,
                name,
            )
            &&& (forall|l: int| !#[trigger] says(lines, l, rest, name)) ==> found is None
        }),
    decreases lines.len(),
{
    if lines.len() > 0 {
        let before = lines.drop_last();
        let n = lines.len() - 1;
        let all = matches_from_last(eol_lines(lines), rest);
        lemma_file_says(before, rest, name, given, i);
        assert forall|l: int| l < n implies #[trigger] says(before, l, rest, name) == says(
            lines,
            l,
            rest,
            name,
        ) by {}
        assert forall|l: int| l >= n implies !#[trigger] says(before, l, rest, name) by {}
        match lines[n] {
            ParsedLineView::Pattern { pattern, attrs } => {
                law_last_mention_counts(attrs, "text"@, 0);
                law_last_mention_counts(attrs, "eol"@, 0);
                if let Some(line) = eol_line(lines[n]) {
                    assert(eol_lines(lines).drop_last() =~= eol_lines(before));
                    if glob_match(pattern, encode_utf8(joined(rest))) {
                        assert(all[0] == line);
                        assert(all.skip(1) =~= matches_from_last(eol_lines(before), rest));
                    }
                }
                assert(says(lines, n, rest, name) ==> first_given(all, given) == last_state(
                    attrs,
                    name,
                ));
            },
            _ => {},
        }
        assert(!says(lines, n, rest, name) ==> first_given(all, given) == first_given(
            matches_from_last(eol_lines(before), rest),
            given,
        ));
        if i < n && (forall|l: int| l > i ==> !#[trigger] says(lines, l, rest, name)) {
            assert(!says(lines, n, rest, name));
            assert forall|l: int| l > i implies !#[trigger] says(before, l, rest, name) by {
                assert(!says(lines, l, rest, name));
            }
        }
        if forall|l: int| !#[trigger] says(lines, l, rest, name) {
            assert(!says(lines, n, rest, name));
            assert forall|l: int| !#[trigger] says(before, l, rest, name) by {
                assert(!says(lines, l, rest, name));
            }
        }
    }
}

/// A file makes a layer if and only if one of its lines mentions `text` or `eol`;
/// the layers that were there stay behind it.
pub proof fn law_when_layered(
    layers: Seq<Layer>,
    prefix: Seq<Seq<char>>,
    lines: Seq<ParsedLineView>,
)
    ensures
        ({
            let all = chained(layers, prefix, lines);
            if exists|i: int|
                0 <= i < lines.len() && (#[trigger] lines[i]) is Pattern && (mentions(
                    lines[i]->attrs,
                    "text"@,
                ) || mentions(lines[i]->attrs, "eol"@)) {
                &&& all.len() == layers.len() + 1
                &&& all[0].prefix == prefix
                &&& all.skip(1) == layers
            } else {
                all == layers
            }
        }),
{
    lemma_any_kept(lines);
    let all = chained(layers, prefix, lines);
    if eol_lines(lines).len() > 0 {
        assert(all.skip(1) =~= layers);
    }
}

proof fn lemma_any_kept(lines: Seq<ParsedLineView>)
    ensures
        eol_lines(lines).len() > 0 <==> exists|i: int|
            0 <= i < lines.len() && (#[trigger] lines[i]) is Pattern && (mentions(
                lines[i]->attrs,
                "text"@,
            ) || mentions(lines[i]->attrs, "eol"@)),
    decreases lines.len(),
{
    if lines.len() > 0 {
        let before = lines.drop_last();
        let n = lines.len() - 1;
        lemma_any_kept(before);
        if lines[n] is Pattern {
            law_kept_line(lines[n]->pattern, lines[n]->attrs, 0);
        }
        assert forall|i: int| 0 <= i < n implies before[i] == #[trigger] lines[i] by {}
        if eol_lines(before).len() > 0 {
            let i = choose|i: int|
                0 <= i < before.len() && (#[trigger] before[i]) is Pattern && (mentions(
                    before[i]->attrs,
                    "text"@,
                ) || mentions(before[i]->attrs, "eol"@));
            assert(lines[i] == before[i]);
        } else if eol_line(lines[n]) is None {
            assert forall|i: int| 0 <= i < lines.len() implies !((#[trigger] lines[i]) is Pattern
                && (mentions(lines[i]->attrs, "text"@) || mentions(lines[i]->attrs, "eol"@))) by {
                if i < n {
                    assert(before[i] == lines[i]);
                }
            }
        }
    }
}

/// The view of a state tells it from all others, but for states with the same
/// value.
pub proof fn law_states_differ(a: State, b: State)
    ensures
        a@ == b@ <==> match (a, b) {
            (State::IsSet, State::IsSet) => true,
            (State::Unset, State::Unset) => true,
            (State::Unspecified, State::Unspecified) => true,
            (State::Value(x), State::Value(y)) => x@ == y@,
            _ => false,
        },
        a is IsSet <==> a@ is IsSet,
        a is Unset <==> a@ is Unset,
        a is Unspecified <==> a@ is Unspecified,
        a matches State::Value(x) ==> a@ == StateView::Value(x@),
        state_ref_view(Some(&a)) == Some(a@),
        state_ref_view(None) is None,
        state_view(Some(a)) == Some(a@),
        state_view(None) is None,
{
}

/// The view of a line has all that the line has, and the views of lines come in
/// the order of the lines.
pub proof fn law_views_of_lines(
    lines: Seq<GitAttributeLine>,
    parsed: Seq<ParsedLine>,
    attr: Assignment,
    i: int,
)
    ensures
        attr@ == (AssignmentView { name: attr.name@, state: attr.state@ }),
        line_views(lines).len() == lines.len(),
        0 <= i < lines.len() ==> {
            let (line, view) = (lines[i], line_views(lines)[i]);
            &&& view.pattern.text == line.pattern.text@
            &&& view.pattern.mode == line.pattern.mode
            &&& view.pattern.first_wildcard_pos == line.pattern.first_wildcard_pos
            &&& view.eol is Some <==> line.eol is Some
            &&& view.text is Some <==> line.text is Some
            &&& line.eol matches Some(state) ==> view.eol == Some(state@)
            &&& line.text matches Some(state) ==> view.text == Some(state@)
        },
        parsed_views(parsed).len() == parsed.len(),
        0 <= i < parsed.len() ==> match (parsed[i], parsed_views(parsed)[i]) {
            (
                ParsedLine::Pattern { pattern, attrs },
                ParsedLineView::Pattern { pattern: pattern_view, attrs: views },
            ) => {
                &&& pattern_view == pattern@
                &&& views.len() == attrs@.len()
                &&& forall|j: int|
                    0 <= j < views.len() ==> (#[trigger] views[j] is Some <==> attrs@[j] is Some) && (
                    attrs@[j] matches Some(a) ==> views[j] == Some(a@))
            },
            (ParsedLine::Macro, ParsedLineView::Macro) => true,
            (ParsedLine::Invalid, ParsedLineView::Invalid) => true,
            _ => false,
        },
{
}

} // verus!
