//! Queries as the first operations read them.

use vstd::prelude::*;
use crate::paths::{copy, names};
use crate::query::exes::{kept, lemma_kept_next, routes};
use crate::query::fsmeta::{is_symlink, FileKind, Node};
use crate::text::{append, chars, contains, contains_spec, option_view, pieces_view, split, split_spec, string};

verus! {

/// The address that a query stands for.
///
/// A query that holds `://` is an address already. Any other is read as
/// `domain/author/package`, from the right: a missing author is the
/// package's own name, a missing domain `github.com`.
pub open spec fn url_from_query_spec(query: Seq<char>) -> Seq<char> {
    if contains_spec(query, "://"@) {
        query
    } else {
        let parts = split_spec(query, '/');
        let n = parts.len() as int;
        let name = parts[n - 1];
        let author = if n >= 2 {
            parts[n - 2]
        } else {
            name
        };
        let domain = if n >= 3 {
            parts[n - 3]
        } else {
            "github.com"@
        };
        "https://"@ + domain + "/"@ + author + "/"@ + name
    }
}

/// Builds the address of the remote that `query` stands for.
pub fn url_from_query(query: &str) -> (url: Option<String>)
    ensures
        option_view(url) == Some(url_from_query_spec(query@)),
{
    let text = chars(query);
    if contains(&text, &chars("://")) {
        return Some(query.to_owned());
    }
    let parts = split(&text, '/');
    let n = parts.len();
    proof {
        assert(pieces_view(parts@).len() == n);
        assert forall|i: int| 0 <= i < n implies pieces_view(parts@)[i] == parts@[i]@ by {}
    }
    let github = chars("github.com");
    let name = &parts[n - 1];
    let author = if n >= 2 {
        &parts[n - 2]
    } else {
        name
    };
    let domain = if n >= 3 {
        &parts[n - 3]
    } else {
        &github
    };
    let slash = chars("/");
    let mut url = chars("https://");
    append(&mut url, domain);
    append(&mut url, &slash);
    append(&mut url, author);
    append(&mut url, &slash);
    append(&mut url, name);
    Some(string(&url))
}

/// A symbolic link that leads to nothing that is there.
pub open spec fn dangling(node: Node) -> bool {
    node.kind == Some(FileKind::Symlink) && node.target_mode is None
}

/// The links among the entries of a directory that lead to nothing.
pub fn get_orphan_links(entries: &Vec<Node>) -> (links: Vec<Vec<String>>)
    ensures
        routes(links@) == kept(entries@, |node: Node| dangling(node)),
{
    let ghost keep = |node: Node| dangling(node);
    let mut links: Vec<Vec<String>> = Vec::new();
    let mut i: usize = 0;
    assert(entries@.take(0) =~= Seq::empty());
    assert(routes(links@) =~= kept(entries@.take(0), keep));
    while i < entries.len()
        invariant
            i <= entries.len(),
            keep == (|node: Node| dangling(node)),
            routes(links@) == kept(entries@.take(i as int), keep),
        decreases entries.len() - i,
    {
        proof {
            lemma_kept_next(entries@, keep, i as int);
        }
        let ghost before = routes(links@);
        if is_symlink(entries[i].kind) && entries[i].target_mode.is_none() {
            links.push(copy(&entries[i].path));
            assert(routes(links@) =~= before + seq![names(entries@[i as int].path@)]);
        }
        i = i + 1;
    }
    assert(entries@.take(i as int) =~= entries@);
    links
}

} // verus!
