//! Finding the repositories below a directory.
//!
//! A walk goes through the directories depth first and stops at each
//! directory that is a repository. Whoever drives it reads one directory at
//! a time and tells the walk what it found there.

use vstd::prelude::*;
use crate::location::{Location, LocationView};
use crate::paths::{copy, names};
use crate::query::exes::routes;

verus! {

/// What was found at a directory.
#[derive(Debug)]
pub enum Probe {
    /// It holds a `.git`: it is a repository.
    Repository,
    /// It is no repository; these are its subdirectories, in the order in
    /// which they were read.
    Directories(Vec<Vec<String>>),
    /// It does not exist.
    Missing,
    /// It could not be read.
    Denied,
}

/// Why nothing was found.
#[derive(Clone, Copy, Debug, PartialEq, Eq, Structural)]
pub enum RepoError {
    /// The directory to search does not exist.
    NotFound,
    /// The directory to search could not be read.
    Access,
    /// No repository matches any of the targets.
    NoMatching,
    /// No repository matches the target.
    NoMatch,
    /// More than one repository matches the target.
    Multiple,
}

impl RepoError {
    pub open spec fn message_spec(self) -> Seq<char> {
        match self {
            RepoError::NotFound => "no repositories found"@,
            RepoError::Access => "could not access directory"@,
            RepoError::NoMatching => "no matching entities found"@,
            RepoError::NoMatch => "no entities match query"@,
            RepoError::Multiple => "multiple entities match query"@,
        }
    }

    /// What is wrong, in words.
    pub fn to_string(&self) -> (text: String)
        ensures
            text@ == self.message_spec(),
    {
        match self {
            RepoError::NotFound => "no repositories found".to_owned(),
            RepoError::Access => "could not access directory".to_owned(),
            RepoError::NoMatching => "no matching entities found".to_owned(),
            RepoError::NoMatch => "no entities match query".to_owned(),
            RepoError::Multiple => "multiple entities match query".to_owned(),
        }
    }
}

/// What a visit came to.
#[derive(Debug)]
pub enum Visit {
    /// The directory is a repository.
    Found(Vec<String>),
    /// The directory is none; its subdirectories are visited next.
    Descended,
    /// The directory could not be read and is passed over.
    Skipped,
    /// The directory where the walk began could not be read.
    Failed(RepoError),
    /// There was no directory left to visit.
    Finished,
}

/// A walk through the directories below one directory.
pub struct Walk {
    /// The directories still to visit, the next one last.
    pending: Vec<Vec<String>>,
    /// Whether the next visit is the first.
    at_root: bool,
}

/// A walk as plain values.
pub struct WalkView {
    /// The directories still to visit, the next one first.
    pub pending: Seq<Seq<Seq<char>>>,
    /// Whether the next visit is the first.
    pub at_root: bool,
}

/// What a visit came to, as plain values.
pub enum VisitView {
    Found(Seq<Seq<char>>),
    Descended,
    Skipped,
    Failed(RepoError),
    Finished,
}

impl View for Visit {
    type V = VisitView;

    open spec fn view(&self) -> VisitView {
        match self {
            Visit::Found(path) => VisitView::Found(names(path@)),
            Visit::Descended => VisitView::Descended,
            Visit::Skipped => VisitView::Skipped,
            Visit::Failed(error) => VisitView::Failed(*error),
            Visit::Finished => VisitView::Finished,
        }
    }
}

impl View for Walk {
    type V = WalkView;

    closed spec fn view(&self) -> WalkView {
        WalkView { pending: routes(self.pending@).reverse(), at_root: self.at_root }
    }
}

impl WalkView {
    /// The walk after the visit of its next directory, where `probe` was
    /// found: the subdirectories of a directory that is no repository come
    /// before all that was pending.
    pub open spec fn visit(self, probe: Probe) -> WalkView {
        if self.pending.len() == 0 {
            self
        } else {
            WalkView {
                pending: match probe {
                    Probe::Directories(children) => routes(children@) + self.pending.drop_first(),
                    _ => self.pending.drop_first(),
                },
                at_root: false,
            }
        }
    }

    /// What the visit of the next directory comes to, where `probe` was found.
    pub open spec fn outcome(self, probe: Probe) -> VisitView {
        if self.pending.len() == 0 {
            VisitView::Finished
        } else {
            match probe {
                Probe::Repository => VisitView::Found(self.pending[0]),
                Probe::Directories(_) => VisitView::Descended,
                Probe::Missing => if self.at_root {
                    VisitView::Failed(RepoError::NotFound)
                } else {
                    VisitView::Skipped
                },
                Probe::Denied => if self.at_root {
                    VisitView::Failed(RepoError::Access)
                } else {
                    VisitView::Skipped
                },
            }
        }
    }
}

/// Begins the walk through the repositories below `dir`.
pub fn iterate(dir: Vec<String>) -> (walk: Walk)
    ensures
        walk@ == (WalkView { pending: seq![names(dir@)], at_root: true }),
{
    let mut pending: Vec<Vec<String>> = Vec::new();
    pending.push(dir);
    let walk = Walk { pending, at_root: true };
    assert(walk@.pending =~= seq![names(dir@)]);
    walk
}

impl Walk {
    /// The directory to visit next, if any is left.
    pub fn next(&self) -> (dir: Option<Vec<String>>)
        ensures
            match dir {
                Some(path) => self@.pending.len() > 0 && names(path@) == self@.pending[0],
                None => self@.pending.len() == 0,
            },
    {
        if self.pending.len() == 0 {
            None
        } else {
            Some(copy(&self.pending[self.pending.len() - 1]))
        }
    }

    /// Visits the next directory, where `probe` was found.
    pub fn visit(&mut self, probe: Probe) -> (visit: Visit)
        ensures
            final(self)@ == old(self)@.visit(probe),
            visit@ == old(self)@.outcome(probe),
    {
        let ghost before = self@;
        let dir = match self.pending.pop() {
            Some(dir) => dir,
            None => {
                return Visit::Finished;
            },
        };
        let first = self.at_root;
        self.at_root = false;
        proof {
            assert(routes(self.pending@) =~= routes(old(self).pending@).drop_last());
            assert(routes(self.pending@).reverse() =~= before.pending.drop_first());
            assert(before.pending[0] == names(dir@));
        }
        match probe {
            Probe::Repository => Visit::Found(dir),
            Probe::Directories(children) => {
                let ghost rest = routes(self.pending@);
                let mut i: usize = children.len();
                while i > 0
                    invariant
                        i <= children.len(),
                        self.at_root == false,
                        routes(self.pending@) == rest + routes(children@).skip(i as int).reverse(),
                    decreases i,
                {
                    i = i - 1;
                    let ghost shown = routes(self.pending@);
                    self.pending.push(copy(&children[i]));
                    proof {
                        assert(routes(self.pending@) =~= shown.push(names(children@[i as int]@)));
                        assert(routes(children@).skip(i as int).reverse() =~= routes(
                            children@,
                        ).skip(i + 1).reverse().push(names(children@[i as int]@)));
                    }
                }
                proof {
                    assert(routes(children@).skip(0) =~= routes(children@));
                    assert((rest + routes(children@).reverse()).reverse() =~= routes(children@)
                        + rest.reverse());
                }
                Visit::Descended
            },
            Probe::Missing => if first {
                Visit::Failed(RepoError::NotFound)
            } else {
                Visit::Skipped
            },
            Probe::Denied => if first {
                Visit::Failed(RepoError::Access)
            } else {
                Visit::Skipped
            },
        }
    }
}

/// The targets as plain values.
pub open spec fn targets_view(targets: Seq<Location>) -> Seq<LocationView> {
    Seq::new(targets.len(), |i: int| targets[i]@)
}

/// Whether one target matches the path, by its names or by its patterns.
pub open spec fn target_matches(target: LocationView, regex: bool, path: Seq<Seq<char>>) -> bool {
    if regex {
        target.matches_re(path)
    } else {
        target.matches(path)
    }
}

/// Whether the path is wanted: there are no targets at all, or one of them
/// matches it.
pub open spec fn wanted(targets: Seq<LocationView>, regex: bool, path: Seq<Seq<char>>) -> bool {
    targets.len() == 0 || exists|k: int|
        0 <= k < targets.len() && target_matches(#[trigger] targets[k], regex, path)
}

/// The wanted ones among the paths, in their order.
pub open spec fn matching_spec(
    paths: Seq<Seq<Seq<char>>>,
    targets: Seq<LocationView>,
    regex: bool,
) -> Seq<Seq<Seq<char>>>
    decreases paths.len(),
{
    if paths.len() == 0 {
        Seq::empty()
    } else {
        matching_spec(paths.drop_last(), targets, regex) + (if wanted(
            targets,
            regex,
            paths.last(),
        ) {
            seq![paths.last()]
        } else {
            Seq::empty()
        })
    }
}

/// Whether the path is wanted.
pub fn is_wanted(targets: &Vec<Location>, regex: bool, path: &Vec<String>) -> (yes: bool)
    ensures
        yes == wanted(targets_view(targets@), regex, names(path@)),
{
    if targets.len() == 0 {
        return true;
    }
    let mut k: usize = 0;
    while k < targets.len()
        invariant
            k <= targets.len(),
            forall|j: int|
                0 <= j < k ==> !target_matches(
                    #[trigger] targets_view(targets@)[j],
                    regex,
                    names(path@),
                ),
        decreases targets.len() - k,
    {
        let found = if regex {
            targets[k].matches_re(path)
        } else {
            targets[k].matches(path)
        };
        if found {
            assert(target_matches(targets_view(targets@)[k as int], regex, names(path@)));
            return true;
        }
        k = k + 1;
    }
    false
}

/// Of the repositories `found`, those that match any of the targets; all of
/// them where there is no target.
pub fn iterate_matching(found: &Vec<Vec<String>>, targets: &Vec<Location>, regex: bool) -> (kept:
    Vec<Vec<String>>)
    ensures
        routes(kept@) == matching_spec(routes(found@), targets_view(targets@), regex),
{
    let mut kept: Vec<Vec<String>> = Vec::new();
    let mut i: usize = 0;
    let ghost paths = routes(found@);
    let ghost wants = targets_view(targets@);
    assert(paths.take(0) =~= Seq::empty());
    assert(routes(kept@) =~= matching_spec(paths.take(0), wants, regex));
    while i < found.len()
        invariant
            i <= found.len(),
            paths == routes(found@),
            wants == targets_view(targets@),
            routes(kept@) == matching_spec(paths.take(i as int), wants, regex),
        decreases found.len() - i,
    {
        proof {
            assert(paths.take(i + 1).drop_last() =~= paths.take(i as int));
            assert(paths.take(i + 1).last() == names(found@[i as int]@));
        }
        let ghost before = routes(kept@);
        if is_wanted(targets, regex, &found[i]) {
            kept.push(copy(&found[i]));
            assert(routes(kept@) =~= before + seq![names(found@[i as int]@)]);
        }
        i = i + 1;
    }
    assert(paths.take(i as int) =~= paths);
    kept
}

/// As `iterate_matching`, but a search that finds nothing is an error.
pub fn iterate_matching_exists(
    found: &Vec<Vec<String>>,
    targets: &Vec<Location>,
    regex: bool,
) -> (kept: Result<Vec<Vec<String>>, RepoError>)
    ensures
        ({
            let wanted = matching_spec(routes(found@), targets_view(targets@), regex);
            if wanted.len() == 0 {
                kept == Err::<Vec<Vec<String>>, RepoError>(RepoError::NoMatching)
            } else {
                kept is Ok && routes(kept->Ok_0@) == wanted
            }
        }),
{
    let kept = iterate_matching(found, targets, regex);
    if kept.len() == 0 {
        Err(RepoError::NoMatching)
    } else {
        Ok(kept)
    }
}

/// The one repository among `found` that matches the target; none and more
/// than one are errors.
pub fn unique(found: &Vec<Vec<String>>, target: Location, regex: bool) -> (one: Result<
    Vec<String>,
    RepoError,
>)
    ensures
        ({
            let wanted = matching_spec(routes(found@), seq![target@], regex);
            if wanted.len() == 0 {
                one == Err::<Vec<String>, RepoError>(RepoError::NoMatch)
            } else if wanted.len() > 1 {
                one == Err::<Vec<String>, RepoError>(RepoError::Multiple)
            } else {
                one is Ok && names(one->Ok_0@) == wanted[0]
            }
        }),
{
    let mut targets: Vec<Location> = Vec::new();
    targets.push(target);
    assert(targets_view(targets@) =~= seq![target@]);
    let mut kept = iterate_matching(found, &targets, regex);
    if kept.len() == 0 {
        Err(RepoError::NoMatch)
    } else if kept.len() > 1 {
        Err(RepoError::Multiple)
    } else {
        let ghost all = routes(kept@);
        match kept.pop() {
            Some(path) => {
                assert(all[0] == names(path@));
                Ok(path)
            },
            None => Err(RepoError::NoMatch),
        }
    }
}

} // verus!
