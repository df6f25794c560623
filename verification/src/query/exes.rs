//! The executables of a package and the links that point to them.

use vstd::prelude::*;
use crate::paths::{copy, file_name, file_name_spec, join, join_spec, names, parent, same};
use crate::pattern::{is_match, regex_is_match};
use crate::query::fsmeta::{is_exe, is_exe_spec, is_symlink, FileKind, Node};

verus! {

/// A list of paths as plain values.
pub open spec fn routes(list: Seq<Vec<String>>) -> Seq<Seq<Seq<char>>> {
    Seq::new(list.len(), |i: int| names(list[i]@))
}

/// The paths of the entries that `keep` accepts, in their order.
pub open spec fn kept(nodes: Seq<Node>, keep: spec_fn(Node) -> bool) -> Seq<Seq<Seq<char>>>
    decreases nodes.len(),
{
    if nodes.len() == 0 {
        Seq::empty()
    } else {
        kept(nodes.drop_last(), keep) + (if keep(nodes.last()) {
            seq![names(nodes.last().path@)]
        } else {
            Seq::empty()
        })
    }
}

/// What one more entry adds to the kept paths.
pub proof fn lemma_kept_next(nodes: Seq<Node>, keep: spec_fn(Node) -> bool, i: int)
    requires
        0 <= i < nodes.len(),
    ensures
        kept(nodes.take(i + 1), keep) == kept(nodes.take(i), keep) + (if keep(nodes[i]) {
            seq![names(nodes[i].path@)]
        } else {
            Seq::empty()
        }),
{
    assert(nodes.take(i + 1).drop_last() =~= nodes.take(i));
    assert(nodes.take(i + 1).last() == nodes[i]);
}

/// A regular file that its owner can execute.
pub open spec fn executable(node: Node) -> bool {
    node.is_file && is_exe_spec(node.mode)
}

/// A symbolic link that leads to nothing its owner could execute.
pub open spec fn orphan(node: Node) -> bool {
    node.kind == Some(FileKind::Symlink) && !is_exe_spec(node.target_mode)
}

/// The executable files among the entries of a directory, in their order.
pub fn get_exes(entries: &Vec<Node>) -> (exes: Vec<Vec<String>>)
    ensures
        routes(exes@) == kept(entries@, |node: Node| executable(node)),
{
    let ghost keep = |node: Node| executable(node);
    let mut exes: Vec<Vec<String>> = Vec::new();
    let mut i: usize = 0;
    assert(entries@.take(0) =~= Seq::empty());
    assert(routes(exes@) =~= kept(entries@.take(0), keep));
    while i < entries.len()
        invariant
            i <= entries.len(),
            keep == (|node: Node| executable(node)),
            routes(exes@) == kept(entries@.take(i as int), keep),
        decreases entries.len() - i,
    {
        proof {
            lemma_kept_next(entries@, keep, i as int);
        }
        let ghost before = routes(exes@);
        if entries[i].is_file && is_exe(entries[i].mode) {
            exes.push(copy(&entries[i].path));
            assert(routes(exes@) =~= before + seq![names(entries@[i as int].path@)]);
        }
        i = i + 1;
    }
    assert(entries@.take(i as int) =~= entries@);
    exes
}

/// The executables of a package: those at its top, then those of its
/// directories `target/release` and `bin`, given the entries of the three.
pub fn get_repo_exes(top: &Vec<Node>, release: &Vec<Node>, bin: &Vec<Node>) -> (exes: Vec<
    Vec<String>,
>)
    ensures
        routes(exes@) == kept(top@, |node: Node| executable(node)) + kept(
            release@,
            |node: Node| executable(node),
        ) + kept(bin@, |node: Node| executable(node)),
{
    let mut exes = get_exes(top);
    let mut more = get_exes(release);
    let mut last = get_exes(bin);
    let ghost first = routes(exes@);
    let ghost second = routes(more@);
    let ghost third = routes(last@);
    exes.append(&mut more);
    assert(routes(exes@) =~= first + second);
    exes.append(&mut last);
    assert(routes(exes@) =~= first + second + third);
    exes
}

/// The path that a link at `node` leads to when it holds `target`: a
/// relative target is seen from the directory of the link.
pub open spec fn resolve_spec(node: Seq<Seq<char>>, target: Seq<Seq<char>>) -> Seq<Seq<char>> {
    if crate::paths::has_parent(node) {
        join_spec(node.drop_last(), target)
    } else {
        target
    }
}

/// The path that the link at `node` leads to when it holds `target`.
pub fn resolve_relative_link(node: &Vec<String>, target: &Vec<String>) -> (path: Vec<String>)
    ensures
        names(path@) == resolve_spec(names(node@), names(target@)),
{
    match parent(node) {
        Some(dir) => join(&dir, target),
        None => copy(target),
    }
}

/// One step on the way from `node` to what it stands for: where to look
/// next, given the target that the link at `node` holds. `None` where `node`
/// is no link, or a link to itself: then `node` is what it stands for.
pub fn get_node_target(node: &Vec<String>, link: Option<&Vec<String>>) -> (next: Option<
    Vec<String>,
>)
    ensures
        match link {
            None => next is None,
            Some(target) => if resolve_spec(names(node@), names(target@)) == names(node@) {
                next is None
            } else {
                next is Some && names(next->Some_0@) == resolve_spec(names(node@), names(target@))
            },
        },
{
    match link {
        None => None,
        Some(target) => {
            let path = resolve_relative_link(node, target);
            if same(&path, node) {
                None
            } else {
                Some(path)
            }
        },
    }
}

/// The entries of a directory that stand for the same path as `target`,
/// which is given as the path it stands for itself.
pub fn get_links_to(target: &Vec<String>, entries: &Vec<Node>) -> (links: Vec<Vec<String>>)
    ensures
        routes(links@) == kept(entries@, |node: Node| names(node.target@) == names(target@)),
{
    let ghost keep = |node: Node| names(node.target@) == names(target@);
    let mut links: Vec<Vec<String>> = Vec::new();
    let mut i: usize = 0;
    assert(entries@.take(0) =~= Seq::empty());
    assert(routes(links@) =~= kept(entries@.take(0), keep));
    while i < entries.len()
        invariant
            i <= entries.len(),
            keep == (|node: Node| names(node.target@) == names(target@)),
            routes(links@) == kept(entries@.take(i as int), keep),
        decreases entries.len() - i,
    {
        proof {
            lemma_kept_next(entries@, keep, i as int);
        }
        let ghost before = routes(links@);
        if same(&entries[i].target, target) {
            links.push(copy(&entries[i].path));
            assert(routes(links@) =~= before + seq![names(entries@[i as int].path@)]);
        }
        i = i + 1;
    }
    assert(entries@.take(i as int) =~= entries@);
    links
}

/// The links among the entries of a directory that lead to nothing that
/// could be executed.
pub fn get_orphan_links(entries: &Vec<Node>) -> (links: Vec<Vec<String>>)
    ensures
        routes(links@) == kept(entries@, |node: Node| orphan(node)),
{
    let ghost keep = |node: Node| orphan(node);
    let mut links: Vec<Vec<String>> = Vec::new();
    let mut i: usize = 0;
    assert(entries@.take(0) =~= Seq::empty());
    assert(routes(links@) =~= kept(entries@.take(0), keep));
    while i < entries.len()
        invariant
            i <= entries.len(),
            keep == (|node: Node| orphan(node)),
            routes(links@) == kept(entries@.take(i as int), keep),
        decreases entries.len() - i,
    {
        proof {
            lemma_kept_next(entries@, keep, i as int);
        }
        let ghost before = routes(links@);
        if is_symlink(entries[i].kind) && !is_exe(entries[i].target_mode) {
            links.push(copy(&entries[i].path));
            assert(routes(links@) =~= before + seq![names(entries@[i as int].path@)]);
        }
        i = i + 1;
    }
    assert(entries@.take(i as int) =~= entries@);
    links
}

/// A regular file whose name the pattern matches.
pub open spec fn named_like(node: Node, pattern: Seq<char>) -> bool {
    node.is_file && (match file_name_spec(names(node.path@)) {
        Some(name) => regex_is_match(pattern, name) == Some(true),
        None => false,
    })
}

/// Where the first entry stands that is a file whose name the pattern
/// matches; the number of entries where none is.
pub open spec fn first_like(nodes: Seq<Node>, pattern: Seq<char>) -> int
    decreases nodes.len(),
{
    if nodes.len() == 0 {
        0
    } else if named_like(nodes[0], pattern) {
        0
    } else {
        1 + first_like(nodes.skip(1), pattern)
    }
}

/// The first file among the entries of a directory whose name the pattern
/// `re` matches. A pattern that is none matches no name.
pub fn get_first_file(entries: &Vec<Node>, re: &str) -> (file: Option<Vec<String>>)
    ensures
        ({
            let place = first_like(entries@, re@);
            if 0 <= place < entries@.len() {
                file is Some && names(file->Some_0@) == names(entries@[place].path@)
            } else {
                file is None
            }
        }),
{
    let mut i: usize = 0;
    assert(entries@.skip(0) =~= entries@);
    while i < entries.len()
        invariant
            i <= entries.len(),
            first_like(entries@, re@) == i + first_like(entries@.skip(i as int), re@),
        decreases entries.len() - i,
    {
        proof {
            assert(entries@.skip(i as int)[0] == entries@[i as int]);
            assert(entries@.skip(i as int).skip(1) =~= entries@.skip(i + 1));
        }
        if entries[i].is_file {
            match file_name(&entries[i].path) {
                Some(name) => {
                    if name_matches(is_match(re, name.as_str())) {
                        return Some(copy(&entries[i].path));
                    }
                },
                None => {},
            }
        }
        i = i + 1;
    }
    assert(entries@.skip(i as int).len() == 0);
    None
}

/// Whether a pattern was found to match: one that is no pattern never is.
pub fn name_matches(found: Option<bool>) -> (yes: bool)
    ensures
        yes == (found == Some(true)),
{
    match found {
        Some(matched) => matched,
        None => false,
    }
}

} // verus!
