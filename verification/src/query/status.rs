//! What `git status` says of a working tree.

use vstd::prelude::*;
use crate::pattern::{captures, is_match, regex_captures, regex_is_match, regex_replace, replace};
use crate::text::{
    chars, lines, lines_spec, option_view, parse_u32, parsed_u32, pieces_view, string,
    strip_leading, trim_end, trimmed_end, without_leading,
};

verus! {

/// What happened to a file.
#[derive(Clone, Copy, Debug, PartialEq, Eq, Structural)]
pub enum GitAction {
    Delete,
    Modify,
    New,
    Rename,
}

/// One changed file.
#[derive(Debug)]
pub struct GitFile {
    /// Its path in the working tree.
    pub location: String,
    /// What happened to it.
    pub action: GitAction,
    /// Whether the change is staged for the next commit.
    pub staged: bool,
}

/// The state of a working tree.
#[derive(Debug)]
pub struct GitStatus {
    /// The changed files, in the order in which git lists them.
    pub files: Vec<GitFile>,
    /// The branch that is followed, if any.
    pub upstream: Option<String>,
    /// Commits that the branch has and its upstream lacks.
    pub commits_ahead: u32,
    /// Commits that the upstream has and the branch lacks.
    pub commits_behind: u32,
    /// The branch that is checked out, if any.
    pub branch: Option<String>,
}

/// The part of the listing that a line belongs to.
#[derive(Clone, Copy, Debug, PartialEq, Eq, Structural)]
pub enum GitStatusSection {
    /// What stands before the lists of files.
    Description,
    /// The changes to be committed.
    Staged,
    /// The changes not staged for commit.
    Unstaged,
    /// The files that git does not track.
    Untracked,
}

impl Default for GitStatus {
    /// A clean working tree of which nothing is known.
    fn default() -> (status: Self)
        ensures
            status.files@.len() == 0,
            status.upstream is None,
            status.commits_ahead == 0,
            status.commits_behind == 0,
            status.branch is None,
    {
        GitStatus {
            files: Vec::new(),
            upstream: None,
            commits_ahead: 0,
            commits_behind: 0,
            branch: None,
        }
    }
}

/// What the word before a listed file says happened to it, by its first
/// letter.
pub open spec fn action_spec(letter: Seq<char>) -> GitAction {
    if letter == "d"@ {
        GitAction::Delete
    } else if letter == "n"@ {
        GitAction::New
    } else if letter == "r"@ {
        GitAction::Rename
    } else {
        GitAction::Modify
    }
}

/// The section that begins with the heading `line`, if it is one.
pub open spec fn heading_spec(line: Seq<char>) -> Option<GitStatusSection> {
    if line == "Changes to be committed:"@ {
        Some(GitStatusSection::Staged)
    } else if line == "Changes not staged for commit:"@ {
        Some(GitStatusSection::Unstaged)
    } else if line == "Untracked files:"@ {
        Some(GitStatusSection::Untracked)
    } else {
        None
    }
}

impl GitAction {
    /// What happened to a file that git lists under a word with this first
    /// letter: `d` for deleted, `n` for new, `r` for renamed, anything else
    /// for modified.
    pub fn from_letter(letter: &str) -> (action: GitAction)
        ensures
            action == action_spec(letter@),
    {
        if letter.eq("d") {
            GitAction::Delete
        } else if letter.eq("n") {
            GitAction::New
        } else if letter.eq("r") {
            GitAction::Rename
        } else {
            GitAction::Modify
        }
    }
}

impl GitStatusSection {
    /// The section that begins with the heading `line`, if it is one.
    pub fn heading(line: &str) -> (section: Option<GitStatusSection>)
        ensures
            section == heading_spec(line@),
    {
        if line.eq("Changes to be committed:") {
            Some(GitStatusSection::Staged)
        } else if line.eq("Changes not staged for commit:") {
            Some(GitStatusSection::Unstaged)
        } else if line.eq("Untracked files:") {
            Some(GitStatusSection::Untracked)
        } else {
            None
        }
    }
}

/// The pattern of a reference with the name of its branch at the end.
pub open spec fn branch_pattern() -> Seq<char> {
    "^.*/([^/]+)$"@
}

/// The name of the branch that the first line of a repository's `HEAD` file
/// names: what stands behind the last slash of the line, white space at its
/// end apart; the whole line where it holds no slash.
pub fn get_branch(head: &str) -> (branch: Option<String>)
    ensures
        option_view(branch) == regex_replace(branch_pattern(), trimmed_end(head@), "$1"@),
{
    replace("^.*/([^/]+)$", trim_end(head), "$1")
}

/// A changed file as plain values.
pub struct FileView {
    pub location: Seq<char>,
    pub action: GitAction,
    pub staged: bool,
}

/// The state of a working tree as plain values.
pub struct StatusView {
    pub files: Seq<FileView>,
    pub upstream: Option<Seq<char>>,
    pub commits_ahead: u32,
    pub commits_behind: u32,
    pub branch: Option<Seq<char>>,
}

impl View for GitFile {
    type V = FileView;

    open spec fn view(&self) -> FileView {
        FileView { location: self.location@, action: self.action, staged: self.staged }
    }
}

/// The files as plain values.
pub open spec fn files_view(files: Seq<GitFile>) -> Seq<FileView> {
    Seq::new(files.len(), |i: int| files[i]@)
}

impl View for GitStatus {
    type V = StatusView;

    open spec fn view(&self) -> StatusView {
        StatusView {
            files: files_view(self.files@),
            upstream: option_view(self.upstream),
            commits_ahead: self.commits_ahead,
            commits_behind: self.commits_behind,
            branch: option_view(self.branch),
        }
    }
}

pub open spec fn on_branch_pattern() -> Seq<char> {
    "On branch (\\S+)"@
}

pub open spec fn ahead_pattern() -> Seq<char> {
    "Your branch is ahead of '([^\n']+)' by ([0-9]+) commit"@
}

pub open spec fn behind_pattern() -> Seq<char> {
    "Your branch is behind '([^\n']+)' by ([0-9]+) commit"@
}

pub open spec fn diverged_pattern() -> Seq<char> {
    "Your branch and '([^\n']+)' have diverged,\nand have ([0-9]+) and ([0-9]+) different commits each, respectively"@
}

pub open spec fn up_to_date_pattern() -> Seq<char> {
    "Your branch is up to date with '([^\n']+)'"@
}

pub open spec fn listed_pattern() -> Seq<char> {
    "^\t"@
}

pub open spec fn file_pattern() -> Seq<char> {
    "^\\t+(\\S)[^:]+:\\s+(\\S.*)$"@
}

/// The groups of the first match of the pattern, where it matches.
pub open spec fn found(pattern: Seq<char>, text: Seq<char>) -> Option<Seq<Option<Seq<char>>>> {
    match regex_captures(pattern, text) {
        Some(Some(groups)) => Some(groups),
        _ => None,
    }
}

/// The text of a group; nothing where the group took no part.
pub open spec fn group_text(groups: Seq<Option<Seq<char>>>, i: int) -> Seq<char> {
    if 0 <= i < groups.len() {
        match groups[i] {
            Some(text) => text,
            None => Seq::empty(),
        }
    } else {
        Seq::empty()
    }
}

/// The number that a group spells; zero where it spells none.
pub open spec fn group_count(groups: Seq<Option<Seq<char>>>, i: int) -> u32 {
    match parsed_u32(group_text(groups, i)) {
        Some(n) => n,
        None => 0,
    }
}

/// What the listing says of the upstream: its name, and by how many commits
/// the branch is ahead of it and behind it.
pub open spec fn upstream_spec(out: Seq<char>) -> (Option<Seq<char>>, u32, u32) {
    if let Some(groups) = found(ahead_pattern(), out) {
        (Some(group_text(groups, 1)), group_count(groups, 2), 0u32)
    } else if let Some(groups) = found(behind_pattern(), out) {
        (Some(group_text(groups, 1)), 0u32, group_count(groups, 2))
    } else if let Some(groups) = found(diverged_pattern(), out) {
        (Some(group_text(groups, 1)), group_count(groups, 2), group_count(groups, 3))
    } else if let Some(groups) = found(up_to_date_pattern(), out) {
        (Some(group_text(groups, 1)), 0u32, 0u32)
    } else {
        (None, 0u32, 0u32)
    }
}

/// The files listed so far and the section after one more line. A line that
/// begins with a tab lists a file of the section; any other may be the
/// heading of a section.
pub open spec fn take_line(
    files: Seq<FileView>,
    section: GitStatusSection,
    line: Seq<char>,
) -> (Seq<FileView>, GitStatusSection) {
    if regex_is_match(listed_pattern(), line) == Some(true) {
        match section {
            GitStatusSection::Description => (files, section),
            GitStatusSection::Untracked => (
                files.push(
                    FileView {
                        location: without_leading(line, '\t'),
                        action: GitAction::New,
                        staged: false,
                    },
                ),
                section,
            ),
            _ => match found(file_pattern(), line) {
                Some(groups) => (
                    files.push(
                        FileView {
                            location: group_text(groups, 2),
                            action: action_spec(group_text(groups, 1)),
                            staged: section == GitStatusSection::Staged,
                        },
                    ),
                    section,
                ),
                None => (files, section),
            },
        }
    } else {
        match heading_spec(line) {
            Some(next) => (files, next),
            None => (files, section),
        }
    }
}

/// The files listed in the lines, from the given ones and the given section
/// on.
pub open spec fn take_lines(
    files: Seq<FileView>,
    section: GitStatusSection,
    lines: Seq<Seq<char>>,
) -> Seq<FileView>
    decreases lines.len(),
{
    if lines.len() == 0 {
        files
    } else {
        let next = take_line(files, section, lines[0]);
        take_lines(next.0, next.1, lines.skip(1))
    }
}

/// What a listing of `git status` says.
pub open spec fn status_spec(out: Seq<char>) -> StatusView {
    let upstream = upstream_spec(out);
    StatusView {
        files: take_lines(Seq::empty(), GitStatusSection::Description, lines_spec(out)),
        upstream: upstream.0,
        commits_ahead: upstream.1,
        commits_behind: upstream.2,
        branch: match found(on_branch_pattern(), out) {
            Some(groups) => Some(group_text(groups, 1)),
            None => None,
        },
    }
}

/// The groups of the first match of the pattern, where it matches.
fn find(pattern: &str, text: &str) -> (groups: Option<Vec<Option<String>>>)
    ensures
        match groups {
            Some(list) => found(pattern@, text@) == Some(crate::pattern::groups_view(list@)),
            None => found(pattern@, text@) is None,
        },
{
    match captures(pattern, text) {
        Some(Some(groups)) => Some(groups),
        _ => None,
    }
}

/// The text of a group.
fn text_of(groups: &Vec<Option<String>>, i: usize) -> (text: String)
    ensures
        text@ == group_text(crate::pattern::groups_view(groups@), i as int),
{
    if i < groups.len() {
        match &groups[i] {
            Some(text) => text.clone(),
            None => String::new(),
        }
    } else {
        String::new()
    }
}

/// The number that a group spells.
fn count_of(groups: &Vec<Option<String>>, i: usize) -> (count: u32)
    ensures
        count == group_count(crate::pattern::groups_view(groups@), i as int),
{
    match parse_u32(text_of(groups, i).as_str()) {
        Some(n) => n,
        None => 0,
    }
}

/// Reads one line of the listing.
fn read_line(files: &mut Vec<GitFile>, section: GitStatusSection, line: &Vec<char>) -> (next:
    GitStatusSection)
    ensures
        (files_view(final(files)@), next) == take_line(files_view(old(files)@), section, line@),
{
    let text = string(line);
    let ghost before = files_view(files@);
    match is_match("^\t", text.as_str()) {
        Some(true) => {
            match section {
                GitStatusSection::Description => {},
                GitStatusSection::Untracked => {
                    let location = string(&strip_leading(line, '\t'));
                    files.push(GitFile { location, action: GitAction::New, staged: false });
                    assert(files_view(files@) =~= before.push(
                        FileView {
                            location: without_leading(line@, '\t'),
                            action: GitAction::New,
                            staged: false,
                        },
                    ));
                },
                _ => {
                    match find("^\\t+(\\S)[^:]+:\\s+(\\S.*)$", text.as_str()) {
                        Some(groups) => {
                            let file = GitFile {
                                location: text_of(&groups, 2),
                                action: GitAction::from_letter(text_of(&groups, 1).as_str()),
                                staged: section == GitStatusSection::Staged,
                            };
                            files.push(file);
                            assert(files_view(files@) =~= before.push(file@));
                        },
                        None => {},
                    }
                },
            }
            section
        },
        _ => {
            assert(files_view(files@) =~= before);
            match GitStatusSection::heading(text.as_str()) {
                Some(next) => next,
                None => section,
            }
        },
    }
}

/// Reads what `git status` printed about a working tree: the branch, the
/// upstream with the commits ahead and behind, and the changed files of each
/// section.
pub fn get_status(out: &str) -> (status: GitStatus)
    ensures
        status@ == status_spec(out@),
{
    let branch = match find("On branch (\\S+)", out) {
        Some(groups) => Some(text_of(&groups, 1)),
        None => None,
    };
    let mut upstream: Option<String> = None;
    let mut commits_ahead: u32 = 0;
    let mut commits_behind: u32 = 0;
    if let Some(groups) = find("Your branch is ahead of '([^\n']+)' by ([0-9]+) commit", out) {
        commits_ahead = count_of(&groups, 2);
        upstream = Some(text_of(&groups, 1));
    } else if let Some(groups) = find(
        "Your branch is behind '([^\n']+)' by ([0-9]+) commit",
        out,
    ) {
        commits_behind = count_of(&groups, 2);
        upstream = Some(text_of(&groups, 1));
    } else if let Some(groups) = find(
        "Your branch and '([^\n']+)' have diverged,\nand have ([0-9]+) and ([0-9]+) different commits each, respectively",
        out,
    ) {
        commits_ahead = count_of(&groups, 2);
        commits_behind = count_of(&groups, 3);
        upstream = Some(text_of(&groups, 1));
    } else if let Some(groups) = find("Your branch is up to date with '([^\n']+)'", out) {
        upstream = Some(text_of(&groups, 1));
    }
    let listing = lines(&chars(out));
    let ghost all = lines_spec(out@);
    let mut files: Vec<GitFile> = Vec::new();
    let mut section = GitStatusSection::Description;
    let mut i: usize = 0;
    proof {
        assert(all.skip(0) =~= all);
        assert(files_view(files@) =~= Seq::empty());
    }
    while i < listing.len()
        invariant
            i <= listing.len(),
            all == pieces_view(listing@),
            take_lines(Seq::empty(), GitStatusSection::Description, all) == take_lines(
                files_view(files@),
                section,
                all.skip(i as int),
            ),
        decreases listing.len() - i,
    {
        proof {
            assert(all.skip(i as int)[0] == listing@[i as int]@);
            assert(all.skip(i as int).skip(1) =~= all.skip(i + 1));
        }
        section = read_line(&mut files, section, &listing[i]);
        i = i + 1;
    }
    assert(all.skip(i as int).len() == 0);
    GitStatus { files, upstream, commits_ahead, commits_behind, branch }
}

} // verus!
