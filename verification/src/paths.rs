//! Paths as lists of components.
//!
//! A path is the list of its components from the outermost to the innermost.
//! The root directory is the component `/`; every other component is the name
//! of a directory or a file, or `..`, or a leading `.`.

use vstd::prelude::*;

verus! {

/// The components as plain values.
pub open spec fn names(parts: Seq<String>) -> Seq<Seq<char>> {
    Seq::new(parts.len(), |i: int| parts[i]@)
}

/// `base` is the beginning of `path`.
pub open spec fn starts_with_spec(path: Seq<Seq<char>>, base: Seq<Seq<char>>) -> bool {
    base.len() <= path.len() && path.take(base.len() as int) == base
}

/// `child` is the end of `path`.
pub open spec fn ends_with_spec(path: Seq<Seq<char>>, child: Seq<Seq<char>>) -> bool {
    child.len() <= path.len() && path.skip(path.len() - child.len()) == child
}

/// The path has a parent: it is not empty and does not end in the root.
pub open spec fn has_parent(path: Seq<Seq<char>>) -> bool {
    path.len() > 0 && path.last() != "/"@
}

/// The path without its last component; a path without a parent as it is.
pub open spec fn popped(path: Seq<Seq<char>>) -> Seq<Seq<char>> {
    if has_parent(path) {
        path.drop_last()
    } else {
        path
    }
}

/// The last component, where it is the name of a file or a directory.
pub open spec fn file_name_spec(path: Seq<Seq<char>>) -> Option<Seq<char>> {
    if path.len() > 0 && path.last() != "/"@ && path.last() != ".."@ && path.last() != "."@ {
        Some(path.last())
    } else {
        None
    }
}

/// The path does not begin at the root.
pub open spec fn is_relative_spec(path: Seq<Seq<char>>) -> bool {
    path.len() == 0 || path[0] != "/"@
}

/// `rel` as seen from `base`: a path from the root stands for itself.
pub open spec fn join_spec(base: Seq<Seq<char>>, rel: Seq<Seq<char>>) -> Seq<Seq<char>> {
    if is_relative_spec(rel) {
        base + rel
    } else {
        rel
    }
}

/// Whether two paths have the same components.
pub fn same(a: &Vec<String>, b: &Vec<String>) -> (equal: bool)
    ensures
        equal == (names(a@) == names(b@)),
{
    if a.len() != b.len() {
        assert(names(a@).len() != names(b@).len());
        return false;
    }
    let mut i: usize = 0;
    while i < a.len()
        invariant
            i <= a.len(),
            a.len() == b.len(),
            forall|j: int| 0 <= j < i ==> a@[j]@ == b@[j]@,
        decreases a.len() - i,
    {
        if !a[i].as_str().eq(b[i].as_str()) {
            assert(names(a@)[i as int] != names(b@)[i as int]);
            return false;
        }
        i = i + 1;
    }
    assert(names(a@) =~= names(b@));
    true
}

/// Whether `path` begins with the components of `base`.
pub fn starts_with(path: &Vec<String>, base: &Vec<String>) -> (found: bool)
    ensures
        found == starts_with_spec(names(path@), names(base@)),
{
    if base.len() > path.len() {
        return false;
    }
    let mut i: usize = 0;
    while i < base.len()
        invariant
            i <= base.len() <= path.len(),
            forall|j: int| 0 <= j < i ==> path@[j]@ == base@[j]@,
        decreases base.len() - i,
    {
        if !path[i].as_str().eq(base[i].as_str()) {
            assert(names(path@).take(base.len() as int)[i as int] != names(base@)[i as int]);
            return false;
        }
        i = i + 1;
    }
    assert(names(path@).take(base.len() as int) =~= names(base@));
    true
}

/// Whether `path` ends with the components of `child`.
pub fn ends_with(path: &Vec<String>, child: &Vec<String>) -> (found: bool)
    ensures
        found == ends_with_spec(names(path@), names(child@)),
{
    if child.len() > path.len() {
        return false;
    }
    let offset = path.len() - child.len();
    let mut i: usize = 0;
    while i < child.len()
        invariant
            i <= child.len() <= path.len(),
            offset == path.len() - child.len(),
            forall|j: int| 0 <= j < i ==> path@[offset + j]@ == child@[j]@,
        decreases child.len() - i,
    {
        if !path[offset + i].as_str().eq(child[i].as_str()) {
            assert(names(path@).skip(offset as int)[i as int] != names(child@)[i as int]);
            return false;
        }
        i = i + 1;
    }
    assert(names(path@).skip(offset as int) =~= names(child@));
    true
}

/// A copy of the path.
pub fn copy(path: &Vec<String>) -> (made: Vec<String>)
    ensures
        names(made@) == names(path@),
{
    let mut made: Vec<String> = Vec::new();
    let mut i: usize = 0;
    while i < path.len()
        invariant
            i <= path.len(),
            made@.len() == i,
            forall|j: int| 0 <= j < i ==> made@[j]@ == path@[j]@,
        decreases path.len() - i,
    {
        made.push(path[i].clone());
        i = i + 1;
    }
    assert(names(made@) =~= names(path@));
    made
}

/// Whether the path has a parent.
pub fn can_pop(path: &Vec<String>) -> (ok: bool)
    ensures
        ok == has_parent(names(path@)),
{
    path.len() > 0 && !path[path.len() - 1].as_str().eq("/")
}

/// Takes the last component off the path, unless it has no parent.
pub fn pop(path: &mut Vec<String>) -> (done: bool)
    ensures
        done == has_parent(names(old(path)@)),
        names(final(path)@) == popped(names(old(path)@)),
{
    if can_pop(path) {
        path.pop();
        assert(names(path@) =~= names(old(path)@).drop_last());
        true
    } else {
        false
    }
}

/// The parent of the path, if it has one.
pub fn parent(path: &Vec<String>) -> (up: Option<Vec<String>>)
    ensures
        match up {
            Some(dir) => has_parent(names(path@)) && names(dir@) == names(path@).drop_last(),
            None => !has_parent(names(path@)),
        },
{
    if can_pop(path) {
        let mut dir = copy(path);
        dir.pop();
        assert(names(dir@) =~= names(path@).drop_last());
        Some(dir)
    } else {
        None
    }
}

/// The name of the file or directory that the path ends in.
pub fn file_name(path: &Vec<String>) -> (name: Option<String>)
    ensures
        crate::text::option_view(name) == file_name_spec(names(path@)),
{
    if path.len() == 0 {
        return None;
    }
    let last = &path[path.len() - 1];
    if last.as_str().eq("/") || last.as_str().eq("..") || last.as_str().eq(".") {
        None
    } else {
        Some(last.clone())
    }
}

/// Whether the path does not begin at the root.
pub fn is_relative(path: &Vec<String>) -> (relative: bool)
    ensures
        relative == is_relative_spec(names(path@)),
{
    path.len() == 0 || !path[0].as_str().eq("/")
}

/// The path `rel` as seen from `base`.
pub fn join(base: &Vec<String>, rel: &Vec<String>) -> (joined: Vec<String>)
    ensures
        names(joined@) == join_spec(names(base@), names(rel@)),
{
    if is_relative(rel) {
        let mut joined = copy(base);
        let mut i: usize = 0;
        assert(names(joined@).len() == names(base@).len());
        assert forall|j: int| 0 <= j < base@.len() implies joined@[j]@ == names(base@)[j] by {
            assert(names(joined@)[j] == names(base@)[j]);
        }
        while i < rel.len()
            invariant
                i <= rel.len(),
                joined@.len() == base@.len() + i,
                forall|j: int| 0 <= j < base@.len() ==> joined@[j]@ == names(base@)[j],
                forall|j: int| 0 <= j < i ==> joined@[base@.len() + j]@ == rel@[j]@,
            decreases rel.len() - i,
        {
            joined.push(rel[i].clone());
            i = i + 1;
        }
        assert(names(joined@) =~= names(base@) + names(rel@));
        joined
    } else {
        copy(rel)
    }
}

} // verus!
