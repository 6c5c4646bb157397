//! Names, and the paths that are made of them.
use vstd::prelude::*;

use crate::repo_path::{below, joined, valid_name, valid_path};

verus! {

/// A path is made of names that are not empty and have no slash.
pub proof fn law_names(path: Seq<Seq<char>>, name: Seq<char>)
    ensures
        valid_name(name) <==> name.len() > 0 && forall|i: int|
            0 <= i < name.len() ==> #[trigger] name[i] != '/',
        valid_path(Seq::empty()),
        valid_path(path.push(name)) <==> valid_path(path) && valid_name(name),
{
    if valid_name(name) {
        assert forall|i: int| 0 <= i < name.len() implies #[trigger] name[i] != '/' by {
            assert(name.contains(name[i]));
        }
    }
    if valid_path(path.push(name)) {
        assert(path.push(name)[path.len() as int] == name);
        assert forall|i: int| 0 <= i < path.len() implies valid_name(#[trigger] path[i]) by {
            assert(path.push(name)[i] == path[i]);
        }
    }
}

/// The root has no text, and that of a path of one name is the name.
pub proof fn law_text_of_name(name: Seq<char>)
    ensures
        joined(Seq::empty()) == Seq::<char>::empty(),
        joined(seq![name]) == name,
{
}

/// What is below a directory is what the path goes on with; a path that does not
/// start with the directory is not below it.
pub proof fn law_below(base: Seq<Seq<char>>, rest: Seq<Seq<char>>, path: Seq<Seq<char>>)
    ensures
        below(base + rest, base) == Some(rest),
        below(path, base) matches Some(found) ==> path == base + found,
{
    let all = base + rest;
    assert(base =~= all.take(base.len() as int));
    assert(all.skip(base.len() as int) =~= rest);
    if let Some(found) = below(path, base) {
        assert(path =~= base + found);
    }
}

} // verus!
