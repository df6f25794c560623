//! Queries for packages: from what the user typed to the address of a remote
//! and to the place of the package among the others.

use vstd::prelude::*;

pub mod method;
pub mod status;
pub mod exes;
pub mod fsmeta;

use crate::location::join_names;
use crate::paths::{copy, ends_with as path_ends_with, ends_with_spec as path_ends_with_spec, names, starts_with as path_starts_with, starts_with_spec as path_starts_with_spec};
use crate::pattern::{is_match, regex_is_match, regex_replace, replace};
use crate::query::exes::routes;
use crate::text::{
    append, chars, contains, contains_spec, ends_with, ends_with_spec, join_spec, lowercase,
    option_view, pieces_view, split, split_spec, string, string_of, to_lowercase,
};

verus! {

/// The address that a query stands for.
///
/// A query that holds `://` or `@` is an address already. Any other is read
/// as `domain/author/package`, from the right: a missing author is the
/// package's own name, a missing domain `github.com`. A query with an empty
/// domain, author or package stands for nothing.
pub open spec fn url_from_query_spec(query: Seq<char>) -> Option<Seq<char>> {
    if contains_spec(query, "://"@) || contains_spec(query, "@"@) {
        Some(query)
    } else {
        let parts = split_spec(query, '/');
        let n = parts.len() as int;
        let name = parts[n - 1];
        let author = if n >= 2 {
            parts[n - 2]
        } else {
            name
        };
        let domain = if n >= 3 {
            parts[n - 3]
        } else {
            "github.com"@
        };
        if domain.len() > 0 && author.len() > 0 && name.len() > 0 {
            Some("https://"@ + domain + "/"@ + author + "/"@ + name + ".git"@)
        } else {
            None
        }
    }
}

/// Builds the address of the remote that `query` stands for.
pub fn url_from_query(query: &str) -> (url: Option<String>)
    ensures
        option_view(url) == url_from_query_spec(query@),
{
    let text = chars(query);
    if contains(&text, &chars("://")) || contains(&text, &chars("@")) {
        return Some(query.to_owned());
    }
    let parts = split(&text, '/');
    let n = parts.len();
    proof {
        assert(pieces_view(parts@).len() == n);
        assert forall|i: int| 0 <= i < n implies pieces_view(parts@)[i] == parts@[i]@ by {}
    }
    let github = chars("github.com");
    let name = &parts[n - 1];
    let author = if n >= 2 {
        &parts[n - 2]
    } else {
        name
    };
    let domain = if n >= 3 {
        &parts[n - 3]
    } else {
        &github
    };
    if domain.len() > 0 && author.len() > 0 && name.len() > 0 {
        let slash = chars("/");
        let mut url = chars("https://");
        append(&mut url, domain);
        append(&mut url, &slash);
        append(&mut url, author);
        append(&mut url, &slash);
        append(&mut url, name);
        append(&mut url, &chars(".git"));
        Some(string(&url))
    } else {
        None
    }
}

/// `id` without a `.git` at its end.
pub open spec fn strip_git_spec(id: Seq<char>) -> Seq<char> {
    if ends_with_spec(id, ".git"@) {
        id.take(id.len() - ".git"@.len())
    } else {
        id
    }
}

/// Takes a `.git` off the end of `id`, where it ends so.
pub fn strip_git_suffix(id: &str) -> (stripped: String)
    ensures
        stripped@ == strip_git_spec(id@),
{
    let text = chars(id);
    let suffix = chars(".git");
    if ends_with(&text, &suffix) {
        string_of(&text, 0, text.len() - suffix.len())
    } else {
        id.to_owned()
    }
}

/// The pattern of what stands before the host in an address with a scheme.
pub open spec fn scheme_pattern() -> Seq<char> {
    "^.*://"@
}

/// The pattern of the user and the host of an address of the form
/// `user@host:path`.
pub open spec fn user_pattern() -> Seq<char> {
    "^.*@([^:]+):"@
}

/// The place of the package that `url` names: host and path in lowercase,
/// without a scheme, a user or a `.git` at the end. An address with a scheme
/// loses its scheme; any other one with an `@` loses its user, and the colon
/// behind its host becomes a slash. Anything else names no package.
pub open spec fn repo_id_from_url_spec(url: Seq<char>) -> Option<Seq<char>> {
    let bare = if contains_spec(url, "://"@) {
        regex_replace(scheme_pattern(), url, ""@)
    } else if contains_spec(url, "@"@) {
        regex_replace(user_pattern(), url, "$1/"@)
    } else {
        None
    };
    match bare {
        Some(id) => Some(strip_git_spec(lowercase(id))),
        None => None,
    }
}

/// The place among the packages for the package that `url` names.
pub fn repo_id_from_url(url: &str) -> (id: Option<String>)
    ensures
        option_view(id) == repo_id_from_url_spec(url@),
{
    let text = chars(url);
    let bare = if contains(&text, &chars("://")) {
        replace("^.*://", url, "")
    } else if contains(&text, &chars("@")) {
        replace("^.*@([^:]+):", url, "$1/")
    } else {
        None
    };
    match bare {
        Some(id) => Some(repo_id_of(id.as_str())),
        None => None,
    }
}

/// The place of a package from its address without scheme and user:
/// lowercase, and without a `.git` at the end.
pub fn repo_id_of(bare: &str) -> (id: String)
    ensures
        id@ == strip_git_spec(lowercase(bare@)),
{
    let lower = to_lowercase(bare);
    strip_git_suffix(lower.as_str())
}

/// The names that a query holds between its slashes, empty ones left out.
pub open spec fn query_names_spec(pieces: Seq<Seq<char>>) -> Seq<Seq<char>>
    decreases pieces.len(),
{
    if pieces.len() == 0 {
        Seq::empty()
    } else {
        query_names_spec(pieces.drop_last()) + (if pieces.last().len() > 0 {
            seq![pieces.last()]
        } else {
            Seq::empty()
        })
    }
}

/// The text with `[^/]` in place of every dot, so that as a pattern a dot
/// stands for any character of a name.
pub open spec fn dots_spec(text: Seq<char>) -> Seq<char>
    decreases text.len(),
{
    if text.len() == 0 {
        Seq::empty()
    } else {
        dots_spec(text.drop_last()) + (if text.last() == '.' {
            "[^/]"@
        } else {
            seq![text.last()]
        })
    }
}

/// The pattern that a query stands for: the end of a path, from a slash on.
pub open spec fn query_pattern_spec(query: Seq<char>) -> Seq<char> {
    "/"@ + dots_spec(query) + "$"@
}

/// Whether one query matches a path below the directory of the packages:
/// the path ends in the names of the query, or in text that the query
/// matches as a pattern.
pub open spec fn query_matches_spec(path: Seq<Seq<char>>, query: Seq<char>) -> bool {
    path_ends_with_spec(path, query_names_spec(split_spec(query, '/'))) || regex_is_match(
        query_pattern_spec(query),
        "/"@ + join_spec(path, "/"@),
    ) == Some(true)
}

/// Whether a path is asked for: there is no query at all, or one of the
/// queries matches it.
pub open spec fn path_matches_query_spec(path: Seq<Seq<char>>, query: Seq<Seq<char>>) -> bool {
    query.len() == 0 || exists|k: int|
        0 <= k < query.len() && query_matches_spec(path, #[trigger] query[k])
}

/// The names that a query holds between its slashes.
pub fn query_names(query: &str) -> (list: Vec<String>)
    ensures
        names(list@) == query_names_spec(split_spec(query@, '/')),
{
    let pieces = split(&chars(query), '/');
    let ghost all = pieces_view(pieces@);
    let mut list: Vec<String> = Vec::new();
    let mut i: usize = 0;
    assert(all.take(0) =~= Seq::empty());
    assert(names(list@) =~= query_names_spec(all.take(0)));
    while i < pieces.len()
        invariant
            i <= pieces.len(),
            all == pieces_view(pieces@),
            names(list@) == query_names_spec(all.take(i as int)),
        decreases pieces.len() - i,
    {
        proof {
            assert(all.take(i + 1).drop_last() =~= all.take(i as int));
            assert(all.take(i + 1).last() == pieces@[i as int]@);
        }
        let ghost before = names(list@);
        if pieces[i].len() > 0 {
            list.push(string(&pieces[i]));
            assert(names(list@) =~= before + seq![pieces@[i as int]@]);
        }
        i = i + 1;
    }
    assert(all.take(i as int) =~= all);
    list
}

/// The pattern that a query stands for.
pub fn query_pattern(query: &str) -> (pattern: String)
    ensures
        pattern@ == query_pattern_spec(query@),
{
    let text = chars(query);
    let class = chars("[^/]");
    let mut pattern = chars("/");
    let mut i: usize = 0;
    assert(text@.take(0) =~= Seq::empty());
    assert(pattern@ =~= "/"@ + dots_spec(text@.take(0)));
    while i < text.len()
        invariant
            i <= text.len(),
            class@ == "[^/]"@,
            pattern@ == "/"@ + dots_spec(text@.take(i as int)),
        decreases text.len() - i,
    {
        proof {
            assert(text@.take(i + 1).drop_last() =~= text@.take(i as int));
            assert(text@.take(i + 1).last() == text@[i as int]);
        }
        let ghost before = pattern@;
        if text[i] == '.' {
            append(&mut pattern, &class);
        } else {
            pattern.push(text[i]);
            assert(pattern@ =~= before + seq![text@[i as int]]);
        }
        i = i + 1;
    }
    assert(text@.take(i as int) =~= text@);
    append(&mut pattern, &chars("$"));
    string(&pattern)
}

/// Whether a path below the directory of the packages is asked for by any of
/// the queries; by all of them where there is none.
pub fn path_matches_query(path: &Vec<String>, query: &Vec<String>) -> (found: bool)
    ensures
        found == path_matches_query_spec(names(path@), names(query@)),
{
    if query.len() == 0 {
        return true;
    }
    let mut shown = "/".to_owned();
    vstd::string::StringExecFns::append(&mut shown, join_names(path, 0, "/").as_str());
    assert(names(path@).skip(0) =~= names(path@));
    let mut k: usize = 0;
    while k < query.len()
        invariant
            k <= query.len(),
            shown@ == "/"@ + join_spec(names(path@), "/"@),
            forall|j: int| 0 <= j < k ==> !query_matches_spec(names(path@), #[trigger] names(query@)[j]),
        decreases query.len() - k,
    {
        let q = query[k].as_str();
        if path_ends_with(path, &query_names(q)) {
            assert(query_matches_spec(names(path@), names(query@)[k as int]));
            return true;
        }
        match is_match(query_pattern(q).as_str(), shown.as_str()) {
            Some(true) => {
                assert(query_matches_spec(names(path@), names(query@)[k as int]));
                return true;
            },
            _ => {},
        }
        k = k + 1;
    }
    false
}

/// Whether a repository is asked for: it lies below `prefix`, and its path
/// from there on is asked for by the queries.
pub open spec fn repo_wanted(
    dir: Seq<Seq<char>>,
    prefix: Seq<Seq<char>>,
    query: Seq<Seq<char>>,
) -> bool {
    path_starts_with_spec(dir, prefix) && path_matches_query_spec(
        dir.skip(prefix.len() as int),
        query,
    )
}

/// The repositories that are asked for, in their order.
pub open spec fn get_repos_spec(
    found: Seq<Seq<Seq<char>>>,
    prefix: Seq<Seq<char>>,
    query: Seq<Seq<char>>,
) -> Seq<Seq<Seq<char>>>
    decreases found.len(),
{
    if found.len() == 0 {
        Seq::empty()
    } else {
        get_repos_spec(found.drop_last(), prefix, query) + (if repo_wanted(
            found.last(),
            prefix,
            query,
        ) {
            seq![found.last()]
        } else {
            Seq::empty()
        })
    }
}

/// Of the repositories `found` below the directory `prefix` of the packages,
/// those that the queries ask for.
pub fn get_repos(found: &Vec<Vec<String>>, prefix: &Vec<String>, query: &Vec<String>) -> (repos:
    Vec<Vec<String>>)
    ensures
        routes(repos@) == get_repos_spec(routes(found@), names(prefix@), names(query@)),
{
    let mut repos: Vec<Vec<String>> = Vec::new();
    let mut i: usize = 0;
    let ghost all = routes(found@);
    assert(all.take(0) =~= Seq::empty());
    assert(routes(repos@) =~= get_repos_spec(all.take(0), names(prefix@), names(query@)));
    while i < found.len()
        invariant
            i <= found.len(),
            all == routes(found@),
            routes(repos@) == get_repos_spec(all.take(i as int), names(prefix@), names(query@)),
        decreases found.len() - i,
    {
        proof {
            assert(all.take(i + 1).drop_last() =~= all.take(i as int));
            assert(all.take(i + 1).last() == names(found@[i as int]@));
        }
        let ghost before = routes(repos@);
        let dir = &found[i];
        if path_starts_with(dir, prefix) {
            let mut rel: Vec<String> = Vec::new();
            let mut k: usize = prefix.len();
            while k < dir.len()
                invariant
                    prefix.len() <= k <= dir.len(),
                    rel@.len() == k - prefix.len(),
                    forall|j: int| 0 <= j < rel@.len() ==> rel@[j]@ == dir@[prefix.len() + j]@,
                decreases dir.len() - k,
            {
                rel.push(dir[k].clone());
                k = k + 1;
            }
            assert(names(rel@) =~= names(dir@).skip(prefix.len() as int));
            if path_matches_query(&rel, query) {
                repos.push(copy(dir));
                assert(routes(repos@) =~= before + seq![names(dir@)]);
            }
        }
        i = i + 1;
    }
    assert(all.take(i as int) =~= all);
    repos
}

} // verus!
