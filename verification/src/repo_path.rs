//! Paths inside a repository.
use vstd::prelude::*;

verus! {

/// A path relative to the root of the repository: the names on the way down to
/// a file or directory. The root itself is the path without a name.
#[derive(Debug)]
pub struct RepoPathBuf {
    components: Vec<String>,
}

/// A name is not empty and has no slash.
pub open spec fn valid_name(name: Seq<char>) -> bool {
    name.len() > 0 && !name.contains('/')
}

/// Every name on the way is valid.
pub open spec fn valid_path(path: Seq<Seq<char>>) -> bool {
    forall|i: int| 0 <= i < path.len() ==> valid_name(#[trigger] path[i])
}

/// The names, with a slash between each two.
pub open spec fn joined(components: Seq<Seq<char>>) -> Seq<char>
    decreases components.len(),
{
    if components.len() == 0 {
        Seq::empty()
    } else if components.len() == 1 {
        components[0]
    } else {
        joined(components.drop_last()) + seq!['/'] + components.last()
    }
}

/// What is left of `path` below `base`, if it is `base` or below it.
pub open spec fn below(path: Seq<Seq<char>>, base: Seq<Seq<char>>) -> Option<Seq<Seq<char>>> {
    if base.is_prefix_of(path) {
        Some(path.skip(base.len() as int))
    } else {
        None
    }
}

impl View for RepoPathBuf {
    type V = Seq<Seq<char>>;

    closed spec fn view(&self) -> Seq<Seq<char>> {
        self.components@.map_values(|c: String| c@)
    }
}

impl RepoPathBuf {
    #[verifier::type_invariant]
    spec fn names_are_valid(self) -> bool {
        valid_path(self@)
    }
}

impl Clone for RepoPathBuf {
    fn clone(&self) -> (res: Self)
        ensures
            res@ == self@,
    {
        proof {
            use_type_invariant(self);
        }
        let components: Vec<String> = copy_from(&self.components, 0);
        proof {
            assert(components@ =~= self.components@);
        }
        RepoPathBuf { components }
    }
}

/// The names from `start` on.
fn copy_from(components: &Vec<String>, start: usize) -> (res: Vec<String>)
    requires
        start <= components@.len(),
    ensures
        res@ == components@.skip(start as int),
{
    let mut res: Vec<String> = Vec::new();
    let mut i: usize = start;
    while i < components.len()
        invariant
            start <= i <= components@.len(),
            res@ == components@.subrange(start as int, i as int),
        decreases components.len() - i,
    {
        res.push(components[i].clone());
        i += 1;
    }
    res
}

impl RepoPathBuf {
    /// The path of the root.
    pub fn root() -> (res: Self)
        ensures
            res@ == Seq::<Seq<char>>::empty(),
    {
        let components: Vec<String> = Vec::new();
        proof {
            assert(components@.map_values(|c: String| c@) =~= Seq::<Seq<char>>::empty());
        }
        RepoPathBuf { components }
    }

    /// The path of what has the name `component` in this directory.
    pub fn join(&self, component: &str) -> (res: Self)
        requires
            valid_name(component@),
        ensures
            res@ == self@.push(component@),
            valid_path(res@),
    {
        proof {
            use_type_invariant(self);
        }
        let mut components: Vec<String> = copy_from(&self.components, 0);
        components.push(component.to_owned());
        proof {
            assert(components@.map_values(|c: String| c@) =~= self@.push(component@));
        }
        RepoPathBuf { components }
    }

    /// The path relative to `base`, if this path is `base` or below it.
    pub fn strip_prefix(&self, base: &RepoPathBuf) -> (res: Option<RepoPathBuf>)
        ensures
            match res {
                Some(rest) => below(self@, base@) == Some(rest@),
                None => below(self@, base@) is None,
            },
            valid_path(self@),
            valid_path(base@),
    {
        proof {
            use_type_invariant(self);
            use_type_invariant(base);
        }
        let n: usize = base.components.len();
        if n > self.components.len() {
            return None;
        }
        let mut i: usize = 0;
        while i < n
            invariant
                n == base.components@.len() <= self.components@.len(),
                i <= n,
                valid_path(self@),
                valid_path(base@),
                forall|k: int| 0 <= k < i ==> #[trigger] self@[k] == base@[k],
            decreases n - i,
        {
            if self.components[i] != base.components[i] {
                proof {
                    assert(self@[i as int] != base@[i as int]);
                }
                return None;
            }
            i += 1;
        }
        proof {
            assert(base@ =~= self@.take(n as int));
        }
        let components: Vec<String> = copy_from(&self.components, n);
        proof {
            assert(components@.map_values(|c: String| c@) =~= self@.skip(n as int));
        }
        Some(RepoPathBuf { components })
    }

    /// The path as text, with a slash between each two names.
    pub fn as_internal_file_string(&self) -> (res: String)
        ensures
            res@ == joined(self@),
            valid_path(self@),
    {
        proof {
            use_type_invariant(self);
        }
        let mut res: String = String::new();
        let mut i: usize = 0;
        while i < self.components.len()
            invariant
                i <= self.components@.len(),
                res@ == joined(self@.take(i as int)),
            decreases self.components.len() - i,
        {
            proof {
                assert(self@.take(i + 1).drop_last() =~= self@.take(i as int));
                reveal_strlit("/");
                assert("/"@ =~= seq!['/']);
            }
            if i > 0 {
                res.append("/");
            }
            res.append(&self.components[i]);
            proof {
                assert(self@.take(i + 1).last() == self.components@[i as int]@);
                if i == 0 {
                    assert(res@ =~= self@[0]);
                }
            }
            i += 1;
        }
        proof {
            assert(self@.take(i as int) =~= self@);
        }
        res
    }
}

} // verus!
