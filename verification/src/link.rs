//! The symbolic links through which the executables of packages are reached.

use vstd::prelude::*;
use crate::paths::{
    copy, file_name, file_name_spec, has_parent, is_relative, is_relative_spec, join, names,
    parent, starts_with, starts_with_spec,
};
use crate::query::exes::{executable, get_exes, kept, routes};
use crate::query::fsmeta::Node;
use crate::location::join_names;
use crate::paths::same;
use crate::text::join_spec;

verus! {

/// Why no link can be made for a path.
#[derive(Clone, Copy, Debug, PartialEq, Eq, Structural)]
pub enum LinkError {
    /// The path does not end in the name of a file.
    NoFileName,
}

impl LinkError {
    /// What is wrong, in words.
    pub fn to_string(&self) -> (text: String)
        ensures
            text@ == "no file name found"@,
    {
        "no file name found".to_owned()
    }
}

/// A link and what it points to, as plain values.
pub open spec fn link_view(link: (Vec<String>, Vec<String>)) -> (Seq<Seq<char>>, Seq<Seq<char>>) {
    (names(link.0@), names(link.1@))
}

/// A list of links as plain values.
pub open spec fn links_view(links: Seq<(Vec<String>, Vec<String>)>) -> Seq<
    (Seq<Seq<char>>, Seq<Seq<char>>),
> {
    Seq::new(links.len(), |i: int| link_view(links[i]))
}

/// The path lies in one of the packages.
pub open spec fn within(dest: Seq<Seq<char>>, repos: Seq<Vec<String>>) -> bool {
    exists|k: int| 0 <= k < repos.len() && starts_with_spec(dest, names(#[trigger] repos[k]@))
}

/// The links that point into one of the packages, in their order.
pub open spec fn iterate_spec(links: Seq<(Vec<String>, Vec<String>)>, repos: Seq<Vec<String>>) -> Seq<
    (Seq<Seq<char>>, Seq<Seq<char>>),
>
    decreases links.len(),
{
    if links.len() == 0 {
        Seq::empty()
    } else {
        iterate_spec(links.drop_last(), repos) + (if within(names(links.last().1@), repos) {
            seq![link_view(links.last())]
        } else {
            Seq::empty()
        })
    }
}

/// Whether the path lies in one of the packages.
pub fn points_into(dest: &Vec<String>, repos: &Vec<Vec<String>>) -> (found: bool)
    ensures
        found == within(names(dest@), repos@),
{
    let mut k: usize = 0;
    while k < repos.len()
        invariant
            k <= repos.len(),
            forall|j: int| 0 <= j < k ==> !starts_with_spec(names(dest@), names(#[trigger] repos@[j]@)),
        decreases repos.len() - k,
    {
        if starts_with(dest, &repos[k]) {
            return true;
        }
        k = k + 1;
    }
    false
}

/// Of the links of the directory of links, each given with what it points
/// to, those that point into one of the packages `repos`.
pub fn iterate(links: &Vec<(Vec<String>, Vec<String>)>, repos: &Vec<Vec<String>>) -> (found: Vec<
    (Vec<String>, Vec<String>),
>)
    ensures
        links_view(found@) == iterate_spec(links@, repos@),
{
    let mut found: Vec<(Vec<String>, Vec<String>)> = Vec::new();
    let mut i: usize = 0;
    assert(links@.take(0) =~= Seq::empty());
    assert(links_view(found@) =~= iterate_spec(links@.take(0), repos@));
    while i < links.len()
        invariant
            i <= links.len(),
            links_view(found@) == iterate_spec(links@.take(i as int), repos@),
        decreases links.len() - i,
    {
        proof {
            assert(links@.take(i + 1).drop_last() =~= links@.take(i as int));
            assert(links@.take(i + 1).last() == links@[i as int]);
        }
        let ghost before = links_view(found@);
        if points_into(&links[i].1, repos) {
            found.push((copy(&links[i].0), copy(&links[i].1)));
            assert(links_view(found@) =~= before + seq![link_view(links@[i as int])]);
        }
        i = i + 1;
    }
    assert(links@.take(i as int) =~= links@);
    found
}

/// The path of the link for the executable `exe` in the directory `bin`:
/// the name of the executable, in that directory.
pub fn link_path(bin: &Vec<String>, exe: &Vec<String>) -> (path: Result<Vec<String>, LinkError>)
    ensures
        match file_name_spec(names(exe@)) {
            Some(name) => path is Ok && names(path->Ok_0@) == names(bin@).push(name),
            None => path == Err::<Vec<String>, LinkError>(LinkError::NoFileName),
        },
{
    match file_name(exe) {
        Some(name) => {
            let mut path = copy(bin);
            path.push(name);
            assert(names(path@) =~= names(bin@).push(name@));
            Ok(path)
        },
        None => Err(LinkError::NoFileName),
    }
}

/// One step on the way from `path` to the file it stands for: where to look
/// next, given the target that the link at `path` holds. `None` where `path`
/// is no link: then it is the file itself. A relative target is seen from
/// the directory of the link.
pub fn deref_rec(path: &Vec<String>, link: Option<&Vec<String>>) -> (next: Option<Vec<String>>)
    requires
        link matches Some(dest) ==> !is_relative_spec(names(dest@)) || has_parent(names(path@)),
    ensures
        match link {
            None => next is None,
            Some(dest) => next is Some && names(next->Some_0@) == (if is_relative_spec(
                names(dest@),
            ) {
                names(path@).drop_last() + names(dest@)
            } else {
                names(dest@)
            }),
        },
{
    match link {
        None => None,
        Some(dest) => {
            if is_relative(dest) {
                match parent(path) {
                    Some(dir) => Some(join(&dir, dest)),
                    None => None,
                }
            } else {
                Some(copy(dest))
            }
        },
    }
}

/// The files among the entries of a directory that their owner can execute.
pub fn executables(entries: &Vec<Node>) -> (found: Vec<Vec<String>>)
    ensures
        routes(found@) == kept(entries@, |node: Node| executable(node)),
{
    get_exes(entries)
}

/// The path below `base`, as it is shown: its components behind those of
/// `base`, with slashes between them.
pub open spec fn shown_below(path: Seq<Seq<char>>, base: Seq<Seq<char>>) -> Seq<char> {
    join_spec(path.skip(base.len() as int), "/"@)
}

/// The links to `exe`, as they are shown behind it: nothing where there is
/// none, else an arrow and the links below `bin`, with commas between them.
pub open spec fn marks_spec(
    symlinks: Seq<(Vec<String>, Vec<String>)>,
    exe: Seq<Seq<char>>,
    bin: Seq<Seq<char>>,
) -> Seq<char>
    decreases symlinks.len(),
{
    if symlinks.len() == 0 {
        Seq::empty()
    } else {
        let before = marks_spec(symlinks.drop_last(), exe, bin);
        if names(symlinks.last().1@) == exe {
            if before.len() == 0 {
                " <- "@ + shown_below(names(symlinks.last().0@), bin)
            } else {
                before + ", "@ + shown_below(names(symlinks.last().0@), bin)
            }
        } else {
            before
        }
    }
}

/// The lines for the executables that have links: each executable below
/// `repo`, followed by its links.
pub open spec fn listing_spec(
    exes: Seq<Vec<String>>,
    repo: Seq<Seq<char>>,
    bin: Seq<Seq<char>>,
    symlinks: Seq<(Vec<String>, Vec<String>)>,
) -> Seq<Seq<char>>
    decreases exes.len(),
{
    if exes.len() == 0 {
        Seq::empty()
    } else {
        let marks = marks_spec(symlinks, names(exes.last()@), bin);
        listing_spec(exes.drop_last(), repo, bin, symlinks) + (if marks.len() > 0 {
            seq![shown_below(names(exes.last()@), repo) + marks]
        } else {
            Seq::empty()
        })
    }
}

/// The links to `exe`, as they are shown behind it.
fn marks(symlinks: &Vec<(Vec<String>, Vec<String>)>, exe: &Vec<String>, bin: &Vec<String>) -> (text:
    String)
    requires
        forall|k: int|
            0 <= k < symlinks@.len() ==> starts_with_spec(
                names(#[trigger] symlinks@[k].0@),
                names(bin@),
            ),
    ensures
        text@ == marks_spec(symlinks@, names(exe@), names(bin@)),
{
    let mut text = String::new();
    let mut k: usize = 0;
    assert(symlinks@.take(0) =~= Seq::empty());
    while k < symlinks.len()
        invariant
            k <= symlinks.len(),
            forall|j: int|
                0 <= j < symlinks@.len() ==> starts_with_spec(
                    names(#[trigger] symlinks@[j].0@),
                    names(bin@),
                ),
            text@ == marks_spec(symlinks@.take(k as int), names(exe@), names(bin@)),
        decreases symlinks.len() - k,
    {
        proof {
            assert(symlinks@.take(k + 1).drop_last() =~= symlinks@.take(k as int));
            assert(symlinks@.take(k + 1).last() == symlinks@[k as int]);
        }
        if same(&symlinks[k].1, exe) {
            let shown = join_names(&symlinks[k].0, bin.len(), "/");
            let empty = text.as_str().is_empty();
            if empty {
                vstd::string::StringExecFns::append(&mut text, " <- ");
                assert(text@ =~= " <- "@);
            } else {
                vstd::string::StringExecFns::append(&mut text, ", ");
            }
            vstd::string::StringExecFns::append(&mut text, shown.as_str());
        }
        k = k + 1;
    }
    assert(symlinks@.take(k as int) =~= symlinks@);
    text
}

/// Lists the executables `exes` of the package at `repo` that have links
/// among `symlinks`, which are the links of the directory `bin`, each given
/// with what it points to.
pub fn executable_listing(
    exes: &Vec<Vec<String>>,
    repo: &Vec<String>,
    bin: &Vec<String>,
    symlinks: &Vec<(Vec<String>, Vec<String>)>,
) -> (lines: Vec<String>)
    requires
        forall|i: int|
            0 <= i < exes@.len() ==> starts_with_spec(names(#[trigger] exes@[i]@), names(repo@)),
        forall|k: int|
            0 <= k < symlinks@.len() ==> starts_with_spec(
                names(#[trigger] symlinks@[k].0@),
                names(bin@),
            ),
    ensures
        names(lines@) == listing_spec(exes@, names(repo@), names(bin@), symlinks@),
{
    let mut lines: Vec<String> = Vec::new();
    let mut i: usize = 0;
    assert(exes@.take(0) =~= Seq::empty());
    assert(names(lines@) =~= listing_spec(exes@.take(0), names(repo@), names(bin@), symlinks@));
    while i < exes.len()
        invariant
            i <= exes.len(),
            forall|j: int|
                0 <= j < exes@.len() ==> starts_with_spec(
                    names(#[trigger] exes@[j]@),
                    names(repo@),
                ),
            forall|k: int|
                0 <= k < symlinks@.len() ==> starts_with_spec(
                    names(#[trigger] symlinks@[k].0@),
                    names(bin@),
                ),
            names(lines@) == listing_spec(
                exes@.take(i as int),
                names(repo@),
                names(bin@),
                symlinks@,
            ),
        decreases exes.len() - i,
    {
        proof {
            assert(exes@.take(i + 1).drop_last() =~= exes@.take(i as int));
            assert(exes@.take(i + 1).last() == exes@[i as int]);
        }
        let links = marks(symlinks, &exes[i], bin);
        if !links.as_str().is_empty() {
            let mut line = join_names(&exes[i], repo.len(), "/");
            vstd::string::StringExecFns::append(&mut line, links.as_str());
            let ghost before = names(lines@);
            lines.push(line);
            assert(names(lines@) =~= before.push(line@));
        }
        i = i + 1;
    }
    assert(exes@.take(i as int) =~= exes@);
    lines
}

} // verus!
