//! The report on the state of a package.

use vstd::prelude::*;
use vstd::string::StringExecFns;
use crate::query::status::{files_view, FileView, GitAction, GitFile, GitStatus, StatusView};
use crate::text::{option_view, string};

verus! {

/// The character of a digit.
pub open spec fn digit_spec(d: nat) -> char {
    if d == 0 {
        '0'
    } else if d == 1 {
        '1'
    } else if d == 2 {
        '2'
    } else if d == 3 {
        '3'
    } else if d == 4 {
        '4'
    } else if d == 5 {
        '5'
    } else if d == 6 {
        '6'
    } else if d == 7 {
        '7'
    } else if d == 8 {
        '8'
    } else {
        '9'
    }
}

/// A number in decimal digits.
pub open spec fn decimal_spec(n: nat) -> Seq<char>
    decreases n,
{
    if n < 10 {
        seq![digit_spec(n)]
    } else {
        decimal_spec(n / 10).push(digit_spec(n % 10))
    }
}

/// The character of a digit.
fn digit(d: u64) -> (c: char)
    requires
        d < 10,
    ensures
        c == digit_spec(d as nat),
{
    if d == 0 {
        '0'
    } else if d == 1 {
        '1'
    } else if d == 2 {
        '2'
    } else if d == 3 {
        '3'
    } else if d == 4 {
        '4'
    } else if d == 5 {
        '5'
    } else if d == 6 {
        '6'
    } else if d == 7 {
        '7'
    } else if d == 8 {
        '8'
    } else {
        '9'
    }
}

/// Writes a number in decimal digits.
pub fn decimal(n: u64) -> (text: String)
    ensures
        text@ == decimal_spec(n as nat),
{
    // The digits from the last to the first.
    let mut back: Vec<char> = Vec::new();
    let mut rest: u64 = n;
    while rest >= 10
        invariant
            decimal_spec(n as nat) == decimal_spec(rest as nat) + back@.reverse(),
        decreases rest,
    {
        let ghost before = back@;
        back.push(digit(rest % 10));
        proof {
            assert(back@.reverse() =~= seq![digit_spec((rest % 10) as nat)] + before.reverse());
            assert(decimal_spec(rest as nat) =~= decimal_spec((rest / 10) as nat) + seq![
                digit_spec((rest % 10) as nat),
            ]);
        }
        rest = rest / 10;
    }
    let ghost before = back@;
    back.push(digit(rest));
    assert(back@.reverse() =~= decimal_spec(rest as nat) + before.reverse());
    let mut digits: Vec<char> = Vec::new();
    let mut i: usize = back.len();
    while i > 0
        invariant
            i <= back.len(),
            digits@ =~= back@.skip(i as int).reverse(),
        decreases i,
    {
        i = i - 1;
        digits.push(back[i]);
        assert(back@.skip(i as int).reverse() =~= back@.skip(i + 1).reverse().push(
            back@[i as int],
        ));
    }
    assert(back@.skip(0) =~= back@);
    string(&digits)
}

/// A text in the colour or weight `code`, where colours are wanted.
pub open spec fn painted(code: Seq<char>, text: Seq<char>, color: bool) -> Seq<char> {
    if color {
        "\u{1b}["@ + code + "m"@ + text + "\u{1b}[m"@
    } else {
        text
    }
}

/// Appends a text in the colour or weight `code`, where colours are wanted.
fn paint(out: &mut String, code: &str, text: &str, color: bool)
    ensures
        final(out)@ == old(out)@ + painted(code@, text@, color),
{
    if color {
        out.append("\u{1b}[");
        out.append(code);
        out.append("m");
        out.append(text);
        out.append("\u{1b}[m");
        assert(out@ =~= old(out)@ + painted(code@, text@, color));
    } else {
        out.append(text);
    }
}

/// Whether a package is worth a report: it has commits to push or pull or
/// changed files, or it is not on `master` following `origin/master`.
pub open spec fn reported(info: StatusView) -> bool {
    info.commits_ahead > 0 || info.commits_behind > 0 || info.files.len() > 0 || (
    info.branch matches Some(branch) && branch != "master"@) || (match info.upstream {
        Some(upstream) => upstream != "origin/master"@,
        None => true,
    })
}

/// The letter of an action.
pub open spec fn letter_spec(action: GitAction) -> Seq<char> {
    match action {
        GitAction::Delete => "D"@,
        GitAction::New => "N"@,
        GitAction::Modify => "M"@,
        GitAction::Rename => "R"@,
    }
}

/// The colour of an action.
pub open spec fn colour_spec(action: GitAction) -> Seq<char> {
    match action {
        GitAction::Delete => "31"@,
        GitAction::New => "32"@,
        GitAction::Modify => "33"@,
        GitAction::Rename => "34"@,
    }
}

/// How many of the files had this done to them.
pub open spec fn count_spec(files: Seq<FileView>, action: GitAction) -> nat
    decreases files.len(),
{
    if files.len() == 0 {
        0
    } else {
        count_spec(files.drop_last(), action) + (if files.last().action == action {
            1nat
        } else {
            0nat
        })
    }
}

/// The count of one action behind the heading: nothing where it is zero.
pub open spec fn tally_spec(files: Seq<FileView>, action: GitAction, color: bool) -> Seq<char> {
    let count = count_spec(files, action);
    if count > 0 {
        " "@ + painted(colour_spec(action), letter_spec(action) + decimal_spec(count), color)
    } else {
        Seq::empty()
    }
}

/// The line of one file: `+` for a staged change and `-` for any other, the
/// letter of what happened, and the path.
pub open spec fn file_line_spec(file: FileView, color: bool) -> Seq<char> {
    "  "@ + (if file.staged {
        "+"@
    } else {
        "-"@
    }) + painted(colour_spec(file.action), letter_spec(file.action), color) + ": "@
        + file.location + "\n"@
}

/// The lines of the files, in their order.
pub open spec fn file_lines_spec(files: Seq<FileView>, color: bool) -> Seq<char>
    decreases files.len(),
{
    if files.len() == 0 {
        Seq::empty()
    } else {
        file_lines_spec(files.drop_last(), color) + file_line_spec(files.last(), color)
    }
}

/// The branch behind the package: `master` in one yellow, any other in a
/// brighter one.
pub open spec fn branch_spec(branch: Option<Seq<char>>, color: bool) -> Seq<char> {
    match branch {
        Some(branch) => " "@ + painted(
            if branch == "master"@ {
                "33"@
            } else {
                "93"@
            },
            "@"@ + branch,
            color,
        ),
        None => Seq::empty(),
    }
}

/// The commits ahead and behind, between brackets.
pub open spec fn graph_spec(ahead: u32, behind: u32) -> Seq<char> {
    "["@ + decimal_spec(ahead as nat) + ":"@ + decimal_spec(behind as nat) + "]"@
}

/// The distance to the upstream, in bold blue where there is one to show in
/// colour, and the upstream.
pub open spec fn upstream_spec(
    upstream: Option<Seq<char>>,
    ahead: u32,
    behind: u32,
    color: bool,
) -> Seq<char> {
    match upstream {
        Some(upstream) => {
            let bold = color && (ahead > 0 || behind > 0);
            " "@ + (if bold {
                "\u{1b}[1m"@
            } else {
                Seq::empty()
            }) + painted("94"@, graph_spec(ahead, behind), bold) + " ("@ + upstream + ")"@
        },
        None => " (no remote)"@,
    }
}

/// The heading of a report: the package, in bold where it is the one the
/// user stands in, its branch, its distance to the upstream and the
/// upstream.
pub open spec fn heading_spec(rel_path: Seq<char>, here: bool, info: StatusView, color: bool) -> Seq<
    char,
> {
    painted("1"@, rel_path, color && here) + branch_spec(info.branch, color) + upstream_spec(
        info.upstream,
        info.commits_ahead,
        info.commits_behind,
        color,
    )
}

/// The counts of the files by what happened to them.
pub open spec fn tallies_spec(files: Seq<FileView>, color: bool) -> Seq<char> {
    tally_spec(files, GitAction::Delete, color) + tally_spec(files, GitAction::New, color)
        + tally_spec(files, GitAction::Modify, color) + tally_spec(
        files,
        GitAction::Rename,
        color,
    )
}

/// The report on a package; none where it is not worth one. A quiet report
/// counts the files by what happened to them, any other lists them.
pub open spec fn status_spec(
    rel_path: Seq<char>,
    here: bool,
    info: StatusView,
    color: bool,
    quiet: bool,
) -> Option<Seq<char>> {
    if !reported(info) {
        None
    } else {
        Some(
            heading_spec(rel_path, here, info, color) + (if quiet {
                tallies_spec(info.files, color)
            } else {
                Seq::empty()
            }) + "\n"@ + (if quiet {
                Seq::empty()
            } else {
                file_lines_spec(info.files, color)
            }),
        )
    }
}

/// The letter of an action.
fn letter(action: GitAction) -> (text: &'static str)
    ensures
        text@ == letter_spec(action),
{
    match action {
        GitAction::Delete => "D",
        GitAction::New => "N",
        GitAction::Modify => "M",
        GitAction::Rename => "R",
    }
}

/// The colour of an action.
fn colour(action: GitAction) -> (text: &'static str)
    ensures
        text@ == colour_spec(action),
{
    match action {
        GitAction::Delete => "31",
        GitAction::New => "32",
        GitAction::Modify => "33",
        GitAction::Rename => "34",
    }
}

/// Whether two actions are the same.
fn same_action(a: GitAction, b: GitAction) -> (same: bool)
    ensures
        same == (a == b),
{
    match (a, b) {
        (GitAction::Delete, GitAction::Delete) => true,
        (GitAction::New, GitAction::New) => true,
        (GitAction::Modify, GitAction::Modify) => true,
        (GitAction::Rename, GitAction::Rename) => true,
        _ => false,
    }
}

/// Appends the count of one action.
fn tally(out: &mut String, files: &Vec<GitFile>, action: GitAction, color: bool)
    ensures
        final(out)@ == old(out)@ + tally_spec(files_view(files@), action, color),
{
    let mut count: usize = 0;
    let mut i: usize = 0;
    let ghost all = files_view(files@);
    assert(all.take(0) =~= Seq::empty());
    while i < files.len()
        invariant
            i <= files.len(),
            all == files_view(files@),
            count == count_spec(all.take(i as int), action),
            count <= i,
        decreases files.len() - i,
    {
        proof {
            assert(all.take(i + 1).drop_last() =~= all.take(i as int));
            assert(all.take(i + 1).last() == files@[i as int]@);
        }
        if same_action(files[i].action, action) {
            count = count + 1;
        }
        i = i + 1;
    }
    assert(all.take(i as int) =~= all);
    if count > 0 {
        let mut text = letter(action).to_owned();
        text.append(decimal(count as u64).as_str());
        out.append(" ");
        paint(out, colour(action), text.as_str(), color);
        assert(out@ =~= old(out)@ + tally_spec(all, action, color));
    } else {
        assert(out@ =~= old(out)@ + tally_spec(all, action, color));
    }
}

/// Appends the lines of the files.
fn file_lines(out: &mut String, files: &Vec<GitFile>, color: bool)
    ensures
        final(out)@ == old(out)@ + file_lines_spec(files_view(files@), color),
{
    let mut i: usize = 0;
    let ghost all = files_view(files@);
    assert(all.take(0) =~= Seq::empty());
    assert(out@ =~= old(out)@ + file_lines_spec(all.take(0), color));
    while i < files.len()
        invariant
            i <= files.len(),
            all == files_view(files@),
            out@ == old(out)@ + file_lines_spec(all.take(i as int), color),
        decreases files.len() - i,
    {
        proof {
            assert(all.take(i + 1).drop_last() =~= all.take(i as int));
            assert(all.take(i + 1).last() == files@[i as int]@);
        }
        let ghost before = out@;
        let file = &files[i];
        out.append("  ");
        if file.staged {
            out.append("+");
        } else {
            out.append("-");
        }
        paint(out, colour(file.action), letter(file.action), color);
        out.append(": ");
        out.append(file.location.as_str());
        out.append("\n");
        assert(out@ =~= before + file_line_spec(file@, color));
        i = i + 1;
    }
    assert(all.take(i as int) =~= all);
}

/// Whether a package is worth a report.
pub fn is_reported(info: &GitStatus) -> (yes: bool)
    ensures
        yes == reported(info@),
{
    if info.commits_ahead > 0 || info.commits_behind > 0 || info.files.len() > 0 {
        return true;
    }
    match &info.branch {
        Some(branch) => {
            if !branch.as_str().eq("master") {
                return true;
            }
        },
        None => {},
    }
    match &info.upstream {
        Some(upstream) => !upstream.as_str().eq("origin/master"),
        None => true,
    }
}

/// Appends the branch.
fn branch_part(out: &mut String, branch: &Option<String>, color: bool)
    ensures
        final(out)@ == old(out)@ + branch_spec(option_view(*branch), color),
{
    match branch {
        Some(branch) => {
            let mut text = "@".to_owned();
            text.append(branch.as_str());
            out.append(" ");
            let code = if branch.as_str().eq("master") {
                "33"
            } else {
                "93"
            };
            paint(out, code, text.as_str(), color);
            assert(out@ =~= old(out)@ + branch_spec(Some(branch@), color));
        },
        None => {
            assert(out@ =~= old(out)@ + Seq::<char>::empty());
        },
    }
}

/// Appends the distance to the upstream and the upstream.
fn upstream_part(out: &mut String, upstream: &Option<String>, ahead: u32, behind: u32, color: bool)
    ensures
        final(out)@ == old(out)@ + upstream_spec(option_view(*upstream), ahead, behind, color),
{
    match upstream {
        Some(upstream) => {
            let bold = color && (ahead > 0 || behind > 0);
            let mut graph = "[".to_owned();
            graph.append(decimal(ahead as u64).as_str());
            graph.append(":");
            graph.append(decimal(behind as u64).as_str());
            graph.append("]");
            assert(graph@ =~= graph_spec(ahead, behind));
            out.append(" ");
            if bold {
                out.append("\u{1b}[1m");
            }
            paint(out, "94", graph.as_str(), bold);
            out.append(" (");
            out.append(upstream.as_str());
            out.append(")");
            assert(out@ =~= old(out)@ + upstream_spec(Some(upstream@), ahead, behind, color));
        },
        None => {
            out.append(" (no remote)");
        },
    }
}

/// Appends the counts of the files by what happened to them.
fn tallies(out: &mut String, files: &Vec<GitFile>, color: bool)
    ensures
        final(out)@ == old(out)@ + tallies_spec(files_view(files@), color),
{
    tally(out, files, GitAction::Delete, color);
    tally(out, files, GitAction::New, color);
    tally(out, files, GitAction::Modify, color);
    tally(out, files, GitAction::Rename, color);
    assert(out@ =~= old(out)@ + tallies_spec(files_view(files@), color));
}

/// Writes the report on the package at `rel_path`; `here` says whether the
/// user stands in it.
pub fn status(rel_path: &str, here: bool, info: &GitStatus, color: bool, quiet: bool) -> (report:
    Option<String>)
    ensures
        option_view(report) == status_spec(rel_path@, here, info@, color, quiet),
{
    if !is_reported(info) {
        return None;
    }
    let mut out = String::new();
    paint(&mut out, "1", rel_path, color && here);
    branch_part(&mut out, &info.branch, color);
    upstream_part(&mut out, &info.upstream, info.commits_ahead, info.commits_behind, color);
    assert(out@ =~= heading_spec(rel_path@, here, info@, color));
    let ghost heading = out@;
    if quiet {
        tallies(&mut out, &info.files, color);
    }
    let ghost counted = out@;
    out.append("\n");
    if !quiet {
        file_lines(&mut out, &info.files, color);
    }
    proof {
        if quiet {
            assert(out@ =~= heading + tallies_spec(info@.files, color) + "\n"@ + Seq::<
                char,
            >::empty());
        } else {
            assert(out@ =~= heading + Seq::<char>::empty() + "\n"@ + file_lines_spec(
                info@.files,
                color,
            ));
        }
    }
    Some(out)
}

} // verus!
