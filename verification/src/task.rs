//! The course of one transfer, as the steps between the calls to the backend.
//!
//! The backend does the work: it opens repositories, talks to remotes and
//! writes files. Whoever drives a transfer performs the action it is given,
//! reports what came of it as an event and is given the next action, until the
//! transfer is done.

use vstd::prelude::*;

verus! {

/// How the fetched commit relates to the checked-out branch.
#[derive(Clone, Copy, Debug, PartialEq, Eq, Structural)]
pub struct MergeAnalysis {
    /// The branch already holds the fetched commit.
    pub up_to_date: bool,
    /// The branch can be moved forward to the fetched commit.
    pub fast_forward: bool,
    /// The histories have diverged: only a merge would join them.
    pub normal: bool,
}

/// How a transfer ended well.
#[derive(Clone, Copy, Debug, PartialEq, Eq, Structural)]
pub enum Summary {
    /// The repository was cloned, or its branch moved forward.
    Done,
    /// There was nothing to pull.
    UpToDate,
}

/// Why a transfer failed.
#[derive(Clone, Copy, Debug, PartialEq, Eq, Structural)]
pub enum FetchError {
    /// The head is detached or no branch: there is nothing to move forward.
    HeadNotBranch,
    /// The histories have diverged, and merging is not done here.
    MergeUnimplemented,
    /// The analysis named no relation that is handled.
    UnimplementedScenario,
    /// The backend reported a failure.
    Backend,
    /// An event was reported that the transfer was not waiting for.
    OutOfTurn,
}

/// How a transfer ended.
pub type Outcome = Result<Summary, FetchError>;

/// Where a transfer stands.
#[derive(Clone, Copy, Debug, PartialEq, Eq)]
pub enum TransferState {
    /// The repository is being opened or created and the remote contacted.
    Negotiating,
    /// Objects are being fetched.
    Transferring,
    /// The branch and the working tree are being brought to the fetched commit.
    Integrating,
    /// The transfer has ended.
    Done(Outcome),
}

/// What the backend has done for a pull.
#[derive(Debug)]
pub enum PullEvent {
    /// The repository with its remote `origin` was opened and the head read:
    /// whether it is a branch, and its short name.
    Opened { is_branch: bool, shorthand: String },
    /// The fetch has ended and the fetched commit was compared with the head.
    Fetched(MergeAnalysis),
    /// The branch was moved and the working tree checked out.
    Applied,
    /// The last action failed.
    Failed,
}

/// What the backend is to do next for a pull.
#[derive(Debug)]
pub enum PullAction {
    /// Open the repository, find its remote `origin` and read the head.
    Open,
    /// Fetch this branch from `origin` and compare the fetched commit with
    /// the head.
    Fetch(String),
    /// Move the branch to the fetched commit and check it out, overwriting
    /// the working tree.
    FastForward,
    /// Report the end of the transfer.
    Report(Outcome),
    /// Nothing: the transfer has ended before.
    Nothing,
}

impl Summary {
    pub open spec fn message_spec(self) -> Seq<char> {
        match self {
            Summary::Done => "done"@,
            Summary::UpToDate => "up-to-date"@,
        }
    }

    /// The word shown for a transfer that ended well.
    pub fn message(&self) -> (text: String)
        ensures
            text@ == self.message_spec(),
    {
        match self {
            Summary::Done => "done".to_owned(),
            Summary::UpToDate => "up-to-date".to_owned(),
        }
    }
}

impl FetchError {
    pub open spec fn message_spec(self) -> Seq<char> {
        match self {
            FetchError::HeadNotBranch => "head is not branch"@,
            FetchError::MergeUnimplemented => "merge unimplemented"@,
            FetchError::UnimplementedScenario => "Unimplemented scenario"@,
            FetchError::Backend => "backend failure"@,
            FetchError::OutOfTurn => "unexpected event"@,
        }
    }

    /// The reason shown for a transfer that failed.
    pub fn message(&self) -> (text: String)
        ensures
            text@ == self.message_spec(),
    {
        match self {
            FetchError::HeadNotBranch => "head is not branch".to_owned(),
            FetchError::MergeUnimplemented => "merge unimplemented".to_owned(),
            FetchError::UnimplementedScenario => "Unimplemented scenario".to_owned(),
            FetchError::Backend => "backend failure".to_owned(),
            FetchError::OutOfTurn => "unexpected event".to_owned(),
        }
    }
}

impl PullAction {
    /// The action writes into the repository: objects, references or files.
    pub open spec fn writes(self) -> bool {
        self is Fetch || self is FastForward
    }

    /// The action moves the branch or changes the working tree.
    pub open spec fn moves_branch(self) -> bool {
        self is FastForward
    }
}

/// What a pull does about the fetched commit: nothing where the branch holds
/// it, a fast-forward where that is possible, and nothing but a refusal where
/// the histories have diverged.
pub open spec fn classify_spec(analysis: MergeAnalysis) -> (TransferState, PullAction) {
    if analysis.up_to_date {
        (TransferState::Done(Ok(Summary::UpToDate)), PullAction::Report(Ok(Summary::UpToDate)))
    } else if analysis.fast_forward {
        (TransferState::Integrating, PullAction::FastForward)
    } else if analysis.normal {
        (
            TransferState::Done(Err(FetchError::MergeUnimplemented)),
            PullAction::Report(Err(FetchError::MergeUnimplemented)),
        )
    } else {
        (
            TransferState::Done(Err(FetchError::UnimplementedScenario)),
            PullAction::Report(Err(FetchError::UnimplementedScenario)),
        )
    }
}

/// The state that a pull is in after `event`, and the action to take.
pub open spec fn pull_step_spec(state: TransferState, event: PullEvent) -> (
    TransferState,
    PullAction,
) {
    match (state, event) {
        (TransferState::Done(outcome), _) => (state, PullAction::Nothing),
        (_, PullEvent::Failed) => (
            TransferState::Done(Err(FetchError::Backend)),
            PullAction::Report(Err(FetchError::Backend)),
        ),
        (TransferState::Negotiating, PullEvent::Opened { is_branch, shorthand }) => if is_branch {
            (TransferState::Transferring, PullAction::Fetch(shorthand))
        } else {
            (
                TransferState::Done(Err(FetchError::HeadNotBranch)),
                PullAction::Report(Err(FetchError::HeadNotBranch)),
            )
        },
        (TransferState::Transferring, PullEvent::Fetched(analysis)) => classify_spec(analysis),
        (TransferState::Integrating, PullEvent::Applied) => (
            TransferState::Done(Ok(Summary::Done)),
            PullAction::Report(Ok(Summary::Done)),
        ),
        _ => (
            TransferState::Done(Err(FetchError::OutOfTurn)),
            PullAction::Report(Err(FetchError::OutOfTurn)),
        ),
    }
}

/// The state in which a transfer begins.
pub fn begin() -> (state: TransferState)
    ensures
        state == TransferState::Negotiating,
{
    TransferState::Negotiating
}

/// The first action of a pull.
pub fn pull_begin() -> (action: PullAction)
    ensures
        action == PullAction::Open,
{
    PullAction::Open
}

/// Decides what a pull does about the fetched commit.
pub fn classify(analysis: MergeAnalysis) -> (next: (TransferState, PullAction))
    ensures
        next == classify_spec(analysis),
{
    if analysis.up_to_date {
        (TransferState::Done(Ok(Summary::UpToDate)), PullAction::Report(Ok(Summary::UpToDate)))
    } else if analysis.fast_forward {
        (TransferState::Integrating, PullAction::FastForward)
    } else if analysis.normal {
        (
            TransferState::Done(Err(FetchError::MergeUnimplemented)),
            PullAction::Report(Err(FetchError::MergeUnimplemented)),
        )
    } else {
        (
            TransferState::Done(Err(FetchError::UnimplementedScenario)),
            PullAction::Report(Err(FetchError::UnimplementedScenario)),
        )
    }
}

/// Takes a pull one step further: from its state and what the backend did to
/// its next state and what the backend is to do.
///
/// A head that is no branch ends the pull before anything is fetched. A
/// failure of the backend ends it wherever it stands. Once it has ended,
/// nothing is done any more.
pub fn pull_step(state: TransferState, event: PullEvent) -> (next: (TransferState, PullAction))
    ensures
        next == pull_step_spec(state, event),
{
    match state {
        TransferState::Done(_) => (state, PullAction::Nothing),
        TransferState::Negotiating => match event {
            PullEvent::Failed => fail(FetchError::Backend),
            PullEvent::Opened { is_branch, shorthand } => if is_branch {
                (TransferState::Transferring, PullAction::Fetch(shorthand))
            } else {
                fail(FetchError::HeadNotBranch)
            },
            _ => fail(FetchError::OutOfTurn),
        },
        TransferState::Transferring => match event {
            PullEvent::Failed => fail(FetchError::Backend),
            PullEvent::Fetched(analysis) => classify(analysis),
            _ => fail(FetchError::OutOfTurn),
        },
        TransferState::Integrating => match event {
            PullEvent::Failed => fail(FetchError::Backend),
            PullEvent::Applied => (
                TransferState::Done(Ok(Summary::Done)),
                PullAction::Report(Ok(Summary::Done)),
            ),
            _ => fail(FetchError::OutOfTurn),
        },
    }
}

/// The end of a transfer by `error`.
fn fail(error: FetchError) -> (next: (TransferState, PullAction))
    ensures
        next == (TransferState::Done(Err(error)), PullAction::Report(Err(error))),
{
    (TransferState::Done(Err(error)), PullAction::Report(Err(error)))
}

/// What the backend has done for a clone.
#[derive(Clone, Copy, Debug, PartialEq, Eq, Structural)]
pub enum CloneEvent {
    /// The destination was created, the objects fetched and the working tree
    /// written.
    Cloned,
    /// The clone failed; what it has written so far stays.
    Failed,
}

/// What the backend is to do next for a clone.
#[derive(Clone, Copy, Debug, PartialEq, Eq)]
pub enum CloneAction {
    /// Clone the remote into the destination, creating missing directories.
    Clone,
    /// Report the end of the transfer.
    Report(Outcome),
    /// Nothing: the transfer has ended before.
    Nothing,
}

/// The state that a clone is in after `event`, and the action to take.
pub open spec fn clone_step_spec(state: TransferState, event: CloneEvent) -> (
    TransferState,
    CloneAction,
) {
    match state {
        TransferState::Done(_) => (state, CloneAction::Nothing),
        _ => {
            let outcome = match event {
                CloneEvent::Cloned => Ok(Summary::Done),
                CloneEvent::Failed => Err(FetchError::Backend),
            };
            (TransferState::Done(outcome), CloneAction::Report(outcome))
        },
    }
}

/// The first action of a clone.
pub fn clone_begin() -> (action: CloneAction)
    ensures
        action == CloneAction::Clone,
{
    CloneAction::Clone
}

/// Takes a clone one step further.
pub fn clone_step(state: TransferState, event: CloneEvent) -> (next: (TransferState, CloneAction))
    ensures
        next == clone_step_spec(state, event),
{
    match state {
        TransferState::Done(_) => (state, CloneAction::Nothing),
        _ => {
            let outcome = match event {
                CloneEvent::Cloned => Ok(Summary::Done),
                CloneEvent::Failed => Err(FetchError::Backend),
            };
            (TransferState::Done(outcome), CloneAction::Report(outcome))
        },
    }
}

/// The state of a pull after a run of events, from its beginning.
pub open spec fn pull_state_after(events: Seq<PullEvent>) -> TransferState
    decreases events.len(),
{
    if events.len() == 0 {
        TransferState::Negotiating
    } else {
        pull_step_spec(pull_state_after(events.drop_last()), events.last()).0
    }
}

/// The action that the last event of a run leads to.
pub open spec fn pull_action_after(events: Seq<PullEvent>) -> PullAction {
    if events.len() == 0 {
        PullAction::Open
    } else {
        pull_step_spec(pull_state_after(events.drop_last()), events.last()).1
    }
}

/// A transfer that has ended stays as it ended, and nothing more is done.
pub proof fn lemma_done_is_final(outcome: Outcome, event: PullEvent)
    ensures
        pull_step_spec(TransferState::Done(outcome), event) == (
            TransferState::Done(outcome),
            PullAction::Nothing,
        ),
{
}

/// Once a pull has ended it stays ended over any further events.
pub proof fn lemma_done_stays(events: Seq<PullEvent>, k: int)
    requires
        0 <= k <= events.len(),
        pull_state_after(events.take(k)) is Done,
    ensures
        pull_state_after(events) == pull_state_after(events.take(k)),
        k < events.len() ==> pull_action_after(events) == PullAction::Nothing,
    decreases events.len() - k,
{
    if k == events.len() {
        assert(events.take(k) =~= events);
    } else {
        let front = events.drop_last();
        assert(front.take(k) =~= events.take(k));
        lemma_done_stays(front, k);
    }
}

/// A pull of a repository whose head is no branch reports that error and
/// never writes into the repository: not by this action, and not by any that
/// follows whatever events are reported.
pub proof fn lemma_detached_head_changes_nothing(events: Seq<PullEvent>, k: int)
    requires
        0 < k <= events.len(),
        events[0] matches PullEvent::Opened { is_branch, .. } && !is_branch,
    ensures
        pull_state_after(events.take(k)) == TransferState::Done(
            Err::<Summary, FetchError>(FetchError::HeadNotBranch),
        ),
        k == 1 ==> pull_action_after(events.take(k)) == PullAction::Report(
            Err(FetchError::HeadNotBranch),
        ),
        !pull_action_after(events.take(k)).writes(),
{
    let first = events.take(1);
    assert(first.drop_last() =~= Seq::<PullEvent>::empty());
    assert(first.last() == events[0]);
    assert(pull_state_after(first.drop_last()) == TransferState::Negotiating);
    let upto = events.take(k);
    assert(upto.take(1) =~= first);
    lemma_done_stays(upto, 1);
}

/// A pull whose branch can be moved forward moves it and then reports
/// success.
pub proof fn lemma_fast_forward_is_applied(shorthand: String, analysis: MergeAnalysis)
    requires
        !analysis.up_to_date,
        analysis.fast_forward,
    ensures
        ({
            let events = seq![
                PullEvent::Opened { is_branch: true, shorthand },
                PullEvent::Fetched(analysis),
                PullEvent::Applied,
            ];
            &&& pull_action_after(events.take(1)) == PullAction::Fetch(shorthand)
            &&& pull_action_after(events.take(2)) == PullAction::FastForward
            &&& pull_action_after(events) == PullAction::Report(Ok(Summary::Done))
            &&& pull_state_after(events) == TransferState::Done(
                Ok::<Summary, FetchError>(Summary::Done),
            )
        }),
{
    let events = seq![
        PullEvent::Opened { is_branch: true, shorthand },
        PullEvent::Fetched(analysis),
        PullEvent::Applied,
    ];
    let one = events.take(1);
    let two = events.take(2);
    assert(one.drop_last() =~= Seq::<PullEvent>::empty());
    assert(pull_state_after(one.drop_last()) == TransferState::Negotiating);
    assert(two.drop_last() =~= one);
    assert(events.drop_last() =~= two);
    assert(pull_state_after(one) == TransferState::Transferring);
    assert(pull_state_after(two) == TransferState::Integrating);
}

/// A pull that finds diverged histories reports that merging is not done,
/// and neither this action nor any later one moves the branch.
pub proof fn lemma_diverged_moves_nothing(
    events: Seq<PullEvent>,
    shorthand: String,
    analysis: MergeAnalysis,
    k: int,
)
    requires
        2 <= k <= events.len(),
        events[0] == (PullEvent::Opened { is_branch: true, shorthand }),
        events[1] == PullEvent::Fetched(analysis),
        !analysis.up_to_date,
        !analysis.fast_forward,
        analysis.normal,
    ensures
        pull_state_after(events.take(k)) == TransferState::Done(
            Err::<Summary, FetchError>(FetchError::MergeUnimplemented),
        ),
        k == 2 ==> pull_action_after(events.take(k)) == PullAction::Report(
            Err(FetchError::MergeUnimplemented),
        ),
        !pull_action_after(events.take(k)).moves_branch(),
        !pull_action_after(events.take(1)).moves_branch(),
{
    let one = events.take(1);
    let two = events.take(2);
    assert(one.drop_last() =~= Seq::<PullEvent>::empty());
    assert(pull_state_after(one.drop_last()) == TransferState::Negotiating);
    assert(two.drop_last() =~= one);
    assert(pull_state_after(one) == TransferState::Transferring);
    let upto = events.take(k);
    assert(upto.take(2) =~= two);
    lemma_done_stays(upto, 2);
}

} // verus!
