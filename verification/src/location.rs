//! The address of a repository, as the user writes it.
//!
//! An address is a list of names, `domain/author/package`, with or without a
//! protocol before it. Without a protocol the domain and the author may be
//! left out.

use vstd::prelude::*;
use vstd::string::StringExecFns;
use crate::paths::{file_name, file_name_spec, names, pop, popped};
use crate::pattern::{captures, captures_view, is_match, regex_captures, regex_is_match, regex_replace, replace};
use crate::text::{chars, join_spec, option_view, pieces_view, split, split_spec, string};

verus! {

/// How a remote is reached.
#[derive(Debug, PartialEq, Clone)]
pub enum Protocol {
    /// Over ssh, as this user.
    Ssh(String),
    /// By the protocol of this name, such as `https`.
    Other(String),
}

/// The address of a repository.
#[derive(Debug, Clone)]
pub struct Location {
    protocol: Option<Protocol>,
    id: Vec<String>,
}

/// An address that cannot be read.
#[derive(Clone, Debug, Copy, PartialEq, Eq, Structural)]
pub struct ParseLocationError {}

/// A protocol as plain values.
pub enum ProtocolView {
    Ssh(Seq<char>),
    Other(Seq<char>),
}

/// An address as plain values.
pub struct LocationView {
    pub protocol: Option<ProtocolView>,
    pub id: Seq<Seq<char>>,
}

impl View for Protocol {
    type V = ProtocolView;

    open spec fn view(&self) -> ProtocolView {
        match self {
            Protocol::Ssh(user) => ProtocolView::Ssh(user@),
            Protocol::Other(name) => ProtocolView::Other(name@),
        }
    }
}

pub open spec fn protocol_view(protocol: Option<Protocol>) -> Option<ProtocolView> {
    match protocol {
        Some(p) => Some(p@),
        None => None,
    }
}

impl View for Location {
    type V = LocationView;

    closed spec fn view(&self) -> LocationView {
        LocationView { protocol: protocol_view(self.protocol), id: names(self.id@) }
    }
}

/// The pattern of an address that begins with a protocol.
pub open spec fn other_pattern() -> Seq<char> {
    "^([^:/]+)://"@
}

/// The pattern of an address that begins with a host for ssh, with or
/// without a user before it.
pub open spec fn ssh_pattern() -> Seq<char> {
    "^([^@]+)@([^:]+):|^([^:/@]+):"@
}

/// The group of a match at `i`, if the match has it and it took part.
pub open spec fn group(groups: Seq<Option<Seq<char>>>, i: int) -> Option<Seq<char>> {
    if 0 <= i < groups.len() {
        groups[i]
    } else {
        None
    }
}

impl LocationView {
    /// The names with `/` between them.
    pub open spec fn display(self) -> Seq<char> {
        join_spec(self.id, "/"@)
    }

    /// The place of the repository among the others: domain, author and
    /// package. Without a protocol, a missing domain is `github.com` and a
    /// missing author the package's own name.
    pub open spec fn id(self) -> Seq<char> {
        if self.protocol is Some {
            self.display()
        } else {
            (if self.id.len() == 1 || self.id.len() == 2 {
                "github.com/"@
            } else {
                Seq::empty()
            }) + (if self.id.len() == 1 {
                self.id[0] + "/"@
            } else {
                Seq::empty()
            }) + self.display()
        }
    }

    /// The address to hand to git.
    pub open spec fn url(self) -> Seq<char> {
        match self.protocol {
            Some(ProtocolView::Other(name)) => name + "://"@ + self.display(),
            Some(ProtocolView::Ssh(user)) => if self.id.len() > 0 {
                user + "@"@ + self.id[0] + ":"@ + join_spec(self.id.skip(1), "/"@)
            } else {
                Seq::empty()
            },
            None => "https://"@ + self.id(),
        }
    }

    /// Whether the path ends in the names of the address, one component for
    /// each name, an empty name standing for any component.
    pub open spec fn matches(self, path: Seq<Seq<char>>) -> bool
        decreases self.id.len(),
    {
        if self.id.len() == 0 {
            true
        } else {
            let word = self.id.last();
            if word.len() == 0 || (path.len() > 0 && path.last() == word) {
                (LocationView { id: self.id.drop_last(), ..self }).matches(popped(path))
            } else {
                false
            }
        }
    }

    /// Whether the path ends in components that the names of the address
    /// match as patterns, one component for each name, an empty name
    /// standing for any component.
    pub open spec fn matches_re(self, path: Seq<Seq<char>>) -> bool
        decreases self.id.len(),
    {
        if self.id.len() == 0 {
            true
        } else {
            let word = self.id.last();
            if word_matches_spec(word, path) {
                (LocationView { id: self.id.drop_last(), ..self }).matches_re(popped(path))
            } else {
                false
            }
        }
    }
}

/// The pattern that a name stands for: the whole component has to match it,
/// and a leading `*` stands for any text.
pub open spec fn word_pattern_spec(word: Seq<char>) -> Seq<char> {
    "^("@ + (if word.len() > 0 && word[0] == '*' {
        "."@
    } else {
        Seq::empty()
    }) + word + ")$"@
}

/// The text that a name is matched against: the name of the file or
/// directory that the path ends in, or nothing.
pub open spec fn matched_text(path: Seq<Seq<char>>) -> Seq<char> {
    match file_name_spec(path) {
        Some(name) => name,
        None => Seq::empty(),
    }
}

/// Whether a name, as a pattern, matches the last component of the path. A
/// name that is no pattern matches nothing.
pub open spec fn word_matches_spec(word: Seq<char>, path: Seq<Seq<char>>) -> bool {
    word.len() == 0 || regex_is_match(word_pattern_spec(word), matched_text(path)) == Some(true)
}

/// The address read from `s`, given what the two patterns find in it:
/// the groups of each and the rest of `s` behind each.
pub open spec fn parse_spec(
    s: Seq<char>,
    other: Option<Option<Seq<Option<Seq<char>>>>>,
    other_rest: Option<Seq<char>>,
    ssh: Option<Option<Seq<Option<Seq<char>>>>>,
    ssh_rest: Option<Seq<char>>,
) -> Result<LocationView, ParseLocationError> {
    if s.len() == 0 {
        Err(ParseLocationError {  })
    } else {
        match other {
            None => Err(ParseLocationError {  }),
            Some(Some(groups)) => match (group(groups, 1), other_rest) {
                (Some(name), Some(rest)) => Ok(
                    LocationView {
                        protocol: Some(ProtocolView::Other(name)),
                        id: split_spec(rest, '/'),
                    },
                ),
                _ => Err(ParseLocationError {  }),
            },
            Some(None) => match ssh {
                None => Err(ParseLocationError {  }),
                Some(Some(groups)) => match ssh_rest {
                    Some(rest) => Ok(
                        LocationView {
                            protocol: Some(
                                ProtocolView::Ssh(
                                    match group(groups, 1) {
                                        Some(user) => user,
                                        None => "git"@,
                                    },
                                ),
                            ),
                            id: split_spec(rest, '/'),
                        },
                    ),
                    None => Err(ParseLocationError {  }),
                },
                Some(None) => Ok(LocationView { protocol: None, id: split_spec(s, '/') }),
            },
        }
    }
}

/// The address that `s` stands for.
///
/// Behind a protocol and `://` stand the names. In `user@host:path` and
/// `host:path` the host is the first name and the user, `git` if none is
/// given, goes with ssh. Anything else is names alone. Nothing at all is
/// no address.
pub open spec fn from_str_spec(s: Seq<char>) -> Result<LocationView, ParseLocationError> {
    parse_spec(
        s,
        regex_captures(other_pattern(), s),
        regex_replace(other_pattern(), s, ""@),
        regex_captures(ssh_pattern(), s),
        regex_replace(ssh_pattern(), s, "$2$3/"@),
    )
}

/// What reading an address returns, as plain values.
pub open spec fn parsed_view(parsed: Result<Location, ParseLocationError>) -> Result<
    LocationView,
    ParseLocationError,
> {
    match parsed {
        Ok(location) => Ok(location@),
        Err(error) => Err(error),
    }
}

/// The names that `text` holds between its slashes.
pub fn words(text: &str) -> (list: Vec<String>)
    ensures
        names(list@) == split_spec(text@, '/'),
{
    let pieces = split(&chars(text), '/');
    let mut list: Vec<String> = Vec::new();
    let mut i: usize = 0;
    while i < pieces.len()
        invariant
            i <= pieces.len(),
            list@.len() == i,
            forall|j: int| 0 <= j < i ==> list@[j]@ == pieces@[j]@,
        decreases pieces.len() - i,
    {
        list.push(string(&pieces[i]));
        i = i + 1;
    }
    assert(names(list@) =~= pieces_view(pieces@));
    list
}

/// The names from `from` on with `sep` between them.
pub fn join_names(list: &Vec<String>, from: usize, sep: &str) -> (joined: String)
    requires
        from <= list.len(),
    ensures
        joined@ == join_spec(names(list@).skip(from as int), sep@),
{
    let mut joined = String::new();
    let mut i: usize = from;
    let ghost parts = names(list@).skip(from as int);
    assert(parts.take(0) =~= Seq::empty());
    while i < list.len()
        invariant
            from <= i <= list.len(),
            parts == names(list@).skip(from as int),
            joined@ == join_spec(parts.take(i - from), sep@),
        decreases list.len() - i,
    {
        proof {
            let upto = parts.take(i - from + 1);
            assert(upto.drop_last() =~= parts.take(i - from));
            assert(upto.last() == list@[i as int]@);
            if i == from {
                assert(upto.len() == 1);
                assert(upto[0] == list@[i as int]@);
            }
        }
        let ghost before = joined@;
        if i > from {
            joined.append(sep);
        }
        joined.append(list[i].as_str());
        proof {
            if i == from {
                assert(joined@ =~= list@[i as int]@);
            } else {
                assert(joined@ =~= before + sep@ + list@[i as int]@);
            }
        }
        i = i + 1;
    }
    assert(parts.take(i - from) =~= parts);
    joined
}

/// The pattern that a name stands for.
pub fn word_pattern(word: &str) -> (pattern: String)
    ensures
        pattern@ == word_pattern_spec(word@),
{
    let text = chars(word);
    let mut pattern = "^(".to_owned();
    if text.len() > 0 && text[0] == '*' {
        pattern.append(".");
    }
    pattern.append(word);
    pattern.append(")$");
    pattern
}

/// Whether a name, as a pattern, accepts a component, given what the pattern
/// found in the component: nothing has to be found for an empty name, and a
/// pattern that was refused accepts nothing.
pub fn word_accepts(word: &str, found: Option<bool>) -> (accepted: bool)
    ensures
        accepted == (word@.len() == 0 || found == Some(true)),
{
    if word.is_empty() {
        true
    } else {
        match found {
            Some(matched) => matched,
            None => false,
        }
    }
}

impl Location {
    /// The address with this protocol and these names.
    pub fn new(protocol: Option<Protocol>, id: Vec<String>) -> (location: Self)
        ensures
            location@ == (LocationView { protocol: protocol_view(protocol), id: names(id@) }),
    {
        Location { protocol, id }
    }

    /// How an address is written, for the help text.
    pub fn about() -> (text: &'static str)
        ensures
            text@ == "<[[domain/]author/]package> or url"@,
    {
        "<[[domain/]author/]package> or url"
    }

    /// The names of the address with `/` between them, as the user wrote them.
    pub fn to_string(&self) -> (text: String)
        ensures
            text@ == self@.display(),
    {
        let text = join_names(&self.id, 0, "/");
        assert(names(self.id@).skip(0) =~= names(self.id@));
        text
    }

    /// The place of the repository among the others.
    pub fn id(&self) -> (text: String)
        ensures
            text@ == self@.id(),
    {
        let shown = self.to_string();
        match &self.protocol {
            Some(_) => shown,
            None => {
                let mut text = String::new();
                if self.id.len() == 1 || self.id.len() == 2 {
                    text.append("github.com/");
                }
                if self.id.len() == 1 {
                    text.append(self.id[0].as_str());
                    text.append("/");
                }
                text.append(shown.as_str());
                proof {
                    assert(text@ =~= self@.id());
                }
                text
            },
        }
    }

    /// The address to hand to git.
    pub fn url(&self) -> (text: String)
        ensures
            text@ == self@.url(),
    {
        match &self.protocol {
            Some(Protocol::Other(name)) => {
                let mut text = name.clone();
                text.append("://");
                text.append(self.to_string().as_str());
                text
            },
            Some(Protocol::Ssh(user)) => {
                if self.id.len() > 0 {
                    let mut text = user.clone();
                    text.append("@");
                    text.append(self.id[0].as_str());
                    text.append(":");
                    text.append(join_names(&self.id, 1, "/").as_str());
                    text
                } else {
                    String::new()
                }
            },
            None => {
                let mut text = "https://".to_owned();
                text.append(self.id().as_str());
                text
            },
        }
    }

    /// Whether the path, given by its components, ends in the names of the
    /// address.
    pub fn matches(&self, path: &Vec<String>) -> (found: bool)
        ensures
            found == self@.matches(names(path@)),
    {
        let mut rest = crate::paths::copy(path);
        let mut i: usize = self.id.len();
        let ghost whole = self@;
        assert(names(self.id@).take(i as int) =~= names(self.id@));
        while i > 0
            invariant
                i <= self.id.len(),
                whole == self@,
                whole.matches(names(path@)) == (LocationView {
                    id: whole.id.take(i as int),
                    ..whole
                }).matches(names(rest@)),
            decreases i,
        {
            let word = &self.id[i - 1];
            proof {
                assert(whole.id.take(i as int).last() == word@);
                assert(whole.id.take(i as int).drop_last() =~= whole.id.take(i - 1));
            }
            let fits = word.as_str().is_empty() || (rest.len() > 0 && rest[rest.len()
                - 1].as_str().eq(word.as_str()));
            if fits {
                pop(&mut rest);
            } else {
                return false;
            }
            i = i - 1;
        }
        true
    }

    /// Whether the path, given by its components, ends in components that
    /// the names of the address match as patterns.
    pub fn matches_re(&self, path: &Vec<String>) -> (found: bool)
        ensures
            found == self@.matches_re(names(path@)),
    {
        let mut rest = crate::paths::copy(path);
        let mut i: usize = self.id.len();
        let ghost whole = self@;
        assert(names(self.id@).take(i as int) =~= names(self.id@));
        while i > 0
            invariant
                i <= self.id.len(),
                whole == self@,
                whole.matches_re(names(path@)) == (LocationView {
                    id: whole.id.take(i as int),
                    ..whole
                }).matches_re(names(rest@)),
            decreases i,
        {
            let word = &self.id[i - 1];
            proof {
                assert(whole.id.take(i as int).last() == word@);
                assert(whole.id.take(i as int).drop_last() =~= whole.id.take(i - 1));
            }
            let found = if word.as_str().is_empty() {
                None
            } else {
                let text = match file_name(&rest) {
                    Some(name) => name,
                    None => String::new(),
                };
                is_match(word_pattern(word.as_str()).as_str(), text.as_str())
            };
            if word_accepts(word.as_str(), found) {
                pop(&mut rest);
            } else {
                return false;
            }
            i = i - 1;
        }
        true
    }

    /// The address read from `s`, given the groups that each of the two
    /// patterns found in it and `s` with the match of each replaced: by
    /// nothing for the protocol, by the host and a slash for ssh.
    pub fn parse(
        s: &str,
        other: Option<Option<Vec<Option<String>>>>,
        other_rest: Option<String>,
        ssh: Option<Option<Vec<Option<String>>>>,
        ssh_rest: Option<String>,
    ) -> (parsed: Result<Location, ParseLocationError>)
        ensures
            parsed_view(parsed) == parse_spec(
                s@,
                captures_view(other),
                option_view(other_rest),
                captures_view(ssh),
                option_view(ssh_rest),
            ),
    {
        if s.is_empty() {
            return Err(ParseLocationError {  });
        }
        match other {
            None => Err(ParseLocationError {  }),
            Some(Some(groups)) => {
                let name = if groups.len() > 1 {
                    groups[1].clone()
                } else {
                    None
                };
                match (name, other_rest) {
                    (Some(name), Some(rest)) => Ok(
                        Location { protocol: Some(Protocol::Other(name)), id: words(rest.as_str()) },
                    ),
                    _ => Err(ParseLocationError {  }),
                }
            },
            Some(None) => match ssh {
                None => Err(ParseLocationError {  }),
                Some(Some(groups)) => match ssh_rest {
                    Some(rest) => {
                        let given = if groups.len() > 1 {
                            groups[1].clone()
                        } else {
                            None
                        };
                        let user = match given {
                            Some(user) => user,
                            None => "git".to_owned(),
                        };
                        Ok(Location { protocol: Some(Protocol::Ssh(user)), id: words(rest.as_str()) })
                    },
                    None => Err(ParseLocationError {  }),
                },
                Some(None) => Ok(Location { protocol: None, id: words(s) }),
            },
        }
    }

    /// Reads an address.
    pub fn from_str(s: &str) -> (parsed: Result<Location, ParseLocationError>)
        ensures
            parsed_view(parsed) == from_str_spec(s@),
    {
        let other = captures("^([^:/]+)://", s);
        let other_rest = replace("^([^:/]+)://", s, "");
        let ssh = captures("^([^@]+)@([^:]+):|^([^:/@]+):", s);
        let ssh_rest = replace("^([^@]+)@([^:]+):|^([^:/@]+):", s, "$2$3/");
        Location::parse(s, other, other_rest, ssh, ssh_rest)
    }
}

impl ParseLocationError {
    /// What is wrong, in words.
    pub fn to_string(&self) -> (text: String)
        ensures
            text@ == "invalid location"@,
    {
        "invalid location".to_owned()
    }
}

} // verus!
