//! Object counts of transfers, the messages that report them, and the state
//! of a repository's working tree.

use vstd::prelude::*;
use crate::board::{sum_of, ProgressBoard};
use crate::scheduler::{queued, schedule, AdmissionError, Scheduler};
use crate::task::Outcome;

verus! {

/// Width of the progress bar in cells.
pub const BAR_WIDTH: u64 = 50;

/// Unbounded object counts: what sums of samples are stated in.
pub struct Totals {
    pub total: int,
    pub received: int,
    pub indexed: int,
}

impl Totals {
    pub open spec fn zero() -> Totals {
        Totals { total: 0, received: 0, indexed: 0 }
    }

    /// Pointwise sum.
    pub open spec fn plus(self, other: Totals) -> Totals {
        Totals {
            total: self.total + other.total,
            received: self.received + other.received,
            indexed: self.indexed + other.indexed,
        }
    }

    /// All three counts can be held in a `ProgressObjects`.
    pub open spec fn fits(self) -> bool {
        &&& 0 <= self.total <= u64::MAX
        &&& 0 <= self.received <= u64::MAX
        &&& 0 <= self.indexed <= u64::MAX
    }
}

/// Object counts of one transfer, or of several transfers taken together.
///
/// A `total` of zero means that the number of objects is not known yet.
#[derive(Clone, Copy, Debug, PartialEq, Eq, Structural)]
pub struct ProgressObjects {
    pub total: u64,
    pub received: u64,
    pub indexed: u64,
}

/// The cells of a progress bar, from left to right, and the percentage shown
/// beside it.
#[derive(Clone, Copy, Debug, PartialEq, Eq, Structural)]
pub struct ProgressBar {
    /// Cells both received and indexed.
    pub left: u64,
    /// Cells either received or indexed, not both.
    pub mid: u64,
    /// Cells still open.
    pub right: u64,
    /// Percentage of the objects that are both received and indexed.
    pub part: u64,
}

pub open spec fn min_int(a: int, b: int) -> int {
    if a <= b { a } else { b }
}

pub open spec fn max_int(a: int, b: int) -> int {
    if a <= b { b } else { a }
}

impl Default for ProgressObjects {
    /// A transfer that has not reported yet counts as one outstanding object.
    fn default() -> (sample: Self)
        ensures
            sample == (ProgressObjects { total: 1, received: 0, indexed: 0 }),
    {
        ProgressObjects { total: 1, received: 0, indexed: 0 }
    }
}

impl ProgressObjects {
    /// The counts as unbounded integers.
    pub open spec fn totals(self) -> Totals {
        Totals {
            total: self.total as int,
            received: self.received as int,
            indexed: self.indexed as int,
        }
    }

    /// Once the total is known, neither count exceeds it.
    pub open spec fn wf(self) -> bool {
        self.total > 0 ==> self.received <= self.total && self.indexed <= self.total
    }

    /// The sample of a finished transfer: everything received and indexed.
    pub open spec fn completed(self) -> ProgressObjects {
        ProgressObjects { total: self.total, received: self.total, indexed: self.total }
    }

    /// The bar that `bar` lays out.
    pub open spec fn bar_spec(self) -> ProgressBar {
        if self.total == 0 {
            ProgressBar { left: 0, mid: 0, right: BAR_WIDTH, part: 0 }
        } else {
            let indexed = BAR_WIDTH * self.indexed / (self.total as int);
            let received = BAR_WIDTH * self.received / (self.total as int);
            let lesser = min_int(indexed, received);
            let greater = max_int(indexed, received);
            ProgressBar {
                left: lesser as u64,
                mid: (greater - lesser) as u64,
                right: (BAR_WIDTH - greater) as u64,
                part: (100 * min_int(self.indexed as int, self.received as int) / (
                self.total as int)) as u64,
            }
        }
    }

    /// The sample with these counts.
    pub fn new(total: u64, received: u64, indexed: u64) -> (sample: Self)
        ensures
            sample == (ProgressObjects { total, received, indexed }),
    {
        ProgressObjects { total, received, indexed }
    }

    /// The percentages of the objects that are received and that are
    /// indexed, each rounded down.
    pub fn percentages(&self) -> (shares: (u64, u64))
        requires
            self.total > 0,
            self.wf(),
        ensures
            shares.0 == 100 * self.received / (self.total as int),
            shares.1 == 100 * self.indexed / (self.total as int),
            shares.0 <= 100,
            shares.1 <= 100,
    {
        let total: u128 = self.total as u128;
        let received: u128 = 100 * (self.received as u128) / total;
        let indexed: u128 = 100 * (self.indexed as u128) / total;
        proof {
            lemma_share_bounded(100, self.received as int, self.total as int);
            lemma_share_bounded(100, self.indexed as int, self.total as int);
        }
        (received as u64, indexed as u64)
    }

    /// Pointwise sum of two samples.
    pub fn add(self, other: Self) -> (sum: Self)
        requires
            self.totals().plus(other.totals()).fits(),
        ensures
            sum.totals() == self.totals().plus(other.totals()),
    {
        ProgressObjects {
            total: self.total + other.total,
            received: self.received + other.received,
            indexed: self.indexed + other.indexed,
        }
    }

    /// Pins the sample at its total: all objects received and indexed.
    pub fn complete(self) -> (done: Self)
        ensures
            done == self.completed(),
            done.wf(),
    {
        ProgressObjects { total: self.total, received: self.total, indexed: self.total }
    }

    /// Whether neither count exceeds a known total.
    pub fn is_wf(&self) -> (ok: bool)
        ensures
            ok == self.wf(),
    {
        self.total == 0 || (self.received <= self.total && self.indexed <= self.total)
    }

    /// Lays the sample out as a bar of `BAR_WIDTH` cells.
    ///
    /// With an unknown total the whole bar is open. Otherwise each count takes
    /// its share of the cells, rounded down.
    pub fn bar(&self) -> (bar: ProgressBar)
        requires
            self.wf(),
        ensures
            bar == self.bar_spec(),
            bar.left + bar.mid + bar.right == BAR_WIDTH,
            bar.part <= 100,
    {
        if self.total == 0 {
            return ProgressBar { left: 0, mid: 0, right: BAR_WIDTH, part: 0 };
        }
        let total: u128 = self.total as u128;
        let width: u128 = BAR_WIDTH as u128;
        assert(width == 50);
        let indexed: u128 = width * (self.indexed as u128) / total;
        let received: u128 = width * (self.received as u128) / total;
        let least: u128 = if self.indexed <= self.received {
            self.indexed as u128
        } else {
            self.received as u128
        };
        let part: u128 = 100 * least / total;
        proof {
            lemma_share_bounded(BAR_WIDTH as int, self.indexed as int, self.total as int);
            lemma_share_bounded(BAR_WIDTH as int, self.received as int, self.total as int);
            lemma_share_bounded(100, least as int, self.total as int);
        }
        let lesser: u128 = if indexed <= received { indexed } else { received };
        let greater: u128 = if indexed <= received { received } else { indexed };
        ProgressBar {
            left: lesser as u64,
            mid: (greater - lesser) as u64,
            right: (width - greater) as u64,
            part: part as u64,
        }
    }
}

/// The pointwise sum does not depend on the order of its operands.
pub proof fn lemma_plus_commutes(a: Totals, b: Totals)
    ensures
        a.plus(b) == b.plus(a),
{
}

/// The pointwise sum does not depend on how its operands are grouped.
pub proof fn lemma_plus_associates(a: Totals, b: Totals, c: Totals)
    ensures
        a.plus(b).plus(c) == a.plus(b.plus(c)),
{
}

/// The sum of two samples that respect their totals respects its total.
pub proof fn lemma_plus_keeps_bounds(a: ProgressObjects, b: ProgressObjects)
    requires
        a.received <= a.total,
        a.indexed <= a.total,
        b.received <= b.total,
        b.indexed <= b.total,
    ensures
        a.totals().plus(b.totals()).received <= a.totals().plus(b.totals()).total,
        a.totals().plus(b.totals()).indexed <= a.totals().plus(b.totals()).total,
{
}

/// A share `scale * part / whole` of a scale lies within the scale.
pub proof fn lemma_share_bounded(scale: int, part: int, whole: int)
    requires
        0 <= scale,
        0 <= part <= whole,
        0 < whole,
    ensures
        0 <= scale * part / whole <= scale,
{
    assert(0 <= scale * part <= scale * whole) by (nonlinear_arith)
        requires
            0 <= scale,
            0 <= part <= whole,
    ;
    assert(0 <= scale * part / whole <= scale) by (nonlinear_arith)
        requires
            0 <= scale * part <= scale * whole,
            0 < whole,
    ;
}

/// What a run of transfers tells its caller.
#[derive(Debug)]
pub enum FetchMessage {
    /// The sum of the running transfers' progress has changed.
    Progress(ProgressObjects),
    /// The transfer with this path has ended thus, with this sum of progress.
    Done((String, Outcome, ProgressObjects)),
}

/// One transfer of a run.
#[derive(Debug)]
pub enum Transfer {
    /// Clone the remote at `url` into `path`.
    Clone { url: String, path: String },
    /// Pull into the repository at `path` from its remote `origin`.
    Pull { path: String },
}

impl Transfer {
    /// The path that identifies the transfer.
    pub open spec fn id(self) -> Seq<char> {
        match self {
            Transfer::Clone { url, path } => path@,
            Transfer::Pull { path } => path@,
        }
    }

    /// The path that identifies the transfer.
    pub fn path(&self) -> (path: &str)
        ensures
            path@ == self.id(),
    {
        match self {
            Transfer::Clone { url, path } => path.as_str(),
            Transfer::Pull { path } => path.as_str(),
        }
    }
}

/// The transfers of one run, in the order of their tickets, and their slots.
pub struct Fetch {
    pub transfers: Vec<Transfer>,
    pub scheduler: Scheduler,
}

/// Sets up the pulls of `paths` over `threads` slots: the first `threads` of
/// them start, the others wait in their order. No slot at all is refused.
pub fn pull(paths: Vec<String>, threads: usize) -> (made: Result<Fetch, AdmissionError>)
    ensures
        threads == 0 ==> made is Err && made->Err_0 == AdmissionError::NoSlots,
        threads > 0 ==> made is Ok && ({
            let fetch = made->Ok_0;
            &&& fetch.scheduler@ == queued(threads as nat, paths@.len())
            &&& fetch.scheduler@.wf()
            &&& fetch.transfers@.len() == paths@.len()
            &&& forall|i: int|
                0 <= i < paths@.len() ==> #[trigger] fetch.transfers@[i] == (Transfer::Pull {
                    path: paths@[i],
                })
        }),
{
    let scheduler = match schedule(paths.len(), threads) {
        Ok(scheduler) => scheduler,
        Err(error) => {
            return Err(error);
        },
    };
    let ghost wanted = paths@;
    let mut transfers: Vec<Transfer> = Vec::new();
    for path in it: paths
        invariant
            it.seq() == wanted,
            transfers@.len() == it.index(),
            forall|i: int|
                0 <= i < it.index() ==> #[trigger] transfers@[i] == (Transfer::Pull {
                    path: wanted[i],
                }),
    {
        transfers.push(Transfer::Pull { path });
    }
    Ok(Fetch { transfers, scheduler })
}

/// Sets up the clones of `url_path_pairs`, each a remote and its destination,
/// over `threads` slots: the first `threads` of them start, the others wait
/// in their order. No slot at all is refused.
pub fn clone(url_path_pairs: Vec<(String, String)>, threads: usize) -> (made: Result<
    Fetch,
    AdmissionError,
>)
    ensures
        threads == 0 ==> made is Err && made->Err_0 == AdmissionError::NoSlots,
        threads > 0 ==> made is Ok && ({
            let fetch = made->Ok_0;
            &&& fetch.scheduler@ == queued(threads as nat, url_path_pairs@.len())
            &&& fetch.scheduler@.wf()
            &&& fetch.transfers@.len() == url_path_pairs@.len()
            &&& forall|i: int|
                0 <= i < url_path_pairs@.len() ==> #[trigger] fetch.transfers@[i]
                    == (Transfer::Clone { url: url_path_pairs@[i].0, path: url_path_pairs@[i].1 })
        }),
{
    let scheduler = match schedule(url_path_pairs.len(), threads) {
        Ok(scheduler) => scheduler,
        Err(error) => {
            return Err(error);
        },
    };
    let ghost wanted = url_path_pairs@;
    let mut transfers: Vec<Transfer> = Vec::new();
    for pair in it: url_path_pairs
        invariant
            it.seq() == wanted,
            transfers@.len() == it.index(),
            forall|i: int|
                0 <= i < it.index() ==> #[trigger] transfers@[i] == (Transfer::Clone {
                    url: wanted[i].0,
                    path: wanted[i].1,
                }),
    {
        let (url, path) = pair;
        transfers.push(Transfer::Clone { url, path });
    }
    Ok(Fetch { transfers, scheduler })
}

/// The board with the sample of `id` pinned at its total, where the board
/// holds `id` and can take the pinned sample.
pub open spec fn pinned(board: ProgressBoard, id: Seq<char>) -> Map<Seq<char>, ProgressObjects> {
    if board@.contains_key(id) && board.fits_with(id, board@[id].completed()) {
        board@.insert(id, board@[id].completed())
    } else {
        board@
    }
}

/// Records a sample that the transfer at `path` reported and makes the
/// message that carries the new sum. A sample that the board cannot take
/// is dropped: the board stays as it is and there is no message.
pub fn progress_message(board: &mut ProgressBoard, path: &str, sample: ProgressObjects) -> (message:
    Option<FetchMessage>)
    requires
        old(board).wf(),
    ensures
        final(board).wf(),
        old(board).fits_with(path@, sample) ==> final(board)@ == old(board)@.insert(path@, sample)
            && (message matches Some(FetchMessage::Progress(sum)) && sum.totals() == sum_of(
            final(board)@,
        )),
        !old(board).fits_with(path@, sample) ==> final(board)@ == old(board)@ && message is None,
{
    match board.try_update(path, sample) {
        Some(sum) => Some(FetchMessage::Progress(sum)),
        None => None,
    }
}

/// Ends the transfer at `path`: its sample is pinned at its total, the sum of
/// the board taken with it, and the transfer then taken off the board. The
/// message carries the path, the outcome and that sum.
pub fn done_message(board: &mut ProgressBoard, path: String, outcome: Outcome) -> (message:
    FetchMessage)
    requires
        old(board).wf(),
    ensures
        final(board).wf(),
        final(board)@ == old(board)@.remove(path@),
        message matches FetchMessage::Done((told, ended, sum)) && told == path && ended == outcome
            && sum.totals() == sum_of(pinned(*old(board), path@)),
{
    match board.get(path.as_str()) {
        Some(sample) => {
            if board.can_hold(path.as_str(), sample.complete()) {
                board.complete(path.as_str());
            }
        },
        None => {},
    }
    let sum = board.aggregate();
    board.remove(path.as_str());
    assert(final(board)@ =~= old(board)@.remove(path@));
    FetchMessage::Done((path, outcome, sum))
}

/// What git says of one path: how the index differs from the head, and how
/// the working tree differs from the index.
#[derive(Clone, Copy, Debug, PartialEq, Eq, Structural)]
pub struct EntryStatus {
    pub index_new: bool,
    pub index_modified: bool,
    pub index_deleted: bool,
    pub index_renamed: bool,
    pub index_typechange: bool,
    pub wt_new: bool,
    pub wt_modified: bool,
    pub wt_deleted: bool,
    pub wt_renamed: bool,
    pub wt_typechange: bool,
}

/// The letter for the change of a path in the working tree.
pub open spec fn wt_char_spec(st: EntryStatus) -> Option<char> {
    if st.wt_new {
        Some('n')
    } else if st.wt_modified {
        Some('m')
    } else if st.wt_deleted {
        Some('d')
    } else if st.wt_renamed {
        Some('r')
    } else if st.wt_typechange {
        Some('t')
    } else {
        None
    }
}

/// The letter for the change of a path in the index.
pub open spec fn index_char_spec(st: EntryStatus) -> Option<char> {
    if st.index_new {
        Some('N')
    } else if st.index_modified {
        Some('M')
    } else if st.index_deleted {
        Some('D')
    } else if st.index_renamed {
        Some('R')
    } else if st.index_typechange {
        Some('T')
    } else {
        None
    }
}

/// The letter for the change of a path in the working tree, if it changed.
pub fn status_wt_char(st: &EntryStatus) -> (letter: Option<char>)
    ensures
        letter == wt_char_spec(*st),
{
    if st.wt_new {
        Some('n')
    } else if st.wt_modified {
        Some('m')
    } else if st.wt_deleted {
        Some('d')
    } else if st.wt_renamed {
        Some('r')
    } else if st.wt_typechange {
        Some('t')
    } else {
        None
    }
}

/// The letter for the change of a path in the index, if it changed.
pub fn status_index_char(st: &EntryStatus) -> (letter: Option<char>)
    ensures
        letter == index_char_spec(*st),
{
    if st.index_new {
        Some('N')
    } else if st.index_modified {
        Some('M')
    } else if st.index_deleted {
        Some('D')
    } else if st.index_renamed {
        Some('R')
    } else if st.index_typechange {
        Some('T')
    } else {
        None
    }
}

/// The lines of the changes of one side, index or working tree, in the order
/// of the entries.
pub open spec fn lines_spec(entries: Seq<(EntryStatus, String)>, staged: bool) -> Seq<
    (char, Seq<char>),
>
    decreases entries.len(),
{
    if entries.len() == 0 {
        Seq::empty()
    } else {
        let letter = if staged {
            index_char_spec(entries.last().0)
        } else {
            wt_char_spec(entries.last().0)
        };
        lines_spec(entries.drop_last(), staged) + (match letter {
            Some(ch) => seq![(ch, entries.last().1@)],
            None => Seq::empty(),
        })
    }
}

/// Lines as plain values.
pub open spec fn lines_view(lines: Seq<(char, String)>) -> Seq<(char, Seq<char>)> {
    Seq::new(lines.len(), |i: int| (lines[i].0, lines[i].1@))
}

/// Appends to `lines` the changes of one side.
fn push_lines(lines: &mut Vec<(char, String)>, entries: &Vec<(EntryStatus, String)>, staged: bool)
    ensures
        lines_view(final(lines)@) == lines_view(old(lines)@) + lines_spec(entries@, staged),
{
    let ghost before = lines_view(lines@);
    let mut i: usize = 0;
    assert(entries@.take(0) =~= Seq::empty());
    assert(lines_view(lines@) =~= before + lines_spec(entries@.take(0), staged));
    while i < entries.len()
        invariant
            i <= entries@.len(),
            lines_view(lines@) == before + lines_spec(entries@.take(i as int), staged),
        decreases entries@.len() - i,
    {
        let letter = if staged {
            status_index_char(&entries[i].0)
        } else {
            status_wt_char(&entries[i].0)
        };
        let ghost shown = lines_view(lines@);
        proof {
            assert(entries@.take(i + 1).drop_last() =~= entries@.take(i as int));
            assert(entries@.take(i + 1).last() == entries@[i as int]);
        }
        match letter {
            Some(ch) => {
                lines.push((ch, entries[i].1.clone()));
                assert(lines_view(lines@) =~= shown + seq![(ch, entries@[i as int].1@)]);
                assert(lines_view(lines@) =~= before + lines_spec(entries@.take(i + 1), staged));
            },
            None => {
                assert(lines_view(lines@) =~= before + lines_spec(entries@.take(i + 1), staged));
            },
        }
        i = i + 1;
    }
    assert(entries@.take(i as int) =~= entries@);
}

/// The changed paths of a repository: first what is staged, then what is not,
/// each in the order of the entries.
pub fn changes(entries: &Vec<(EntryStatus, String)>) -> (lines: Vec<(char, String)>)
    ensures
        lines_view(lines@) == lines_spec(entries@, true) + lines_spec(entries@, false),
{
    let mut lines: Vec<(char, String)> = Vec::new();
    assert(lines_view(lines@) =~= Seq::empty());
    push_lines(&mut lines, entries, true);
    push_lines(&mut lines, entries, false);
    assert(lines_view(lines@) =~= lines_spec(entries@, true) + lines_spec(entries@, false));
    lines
}

/// The state of a repository: its changed paths, its branch and how many
/// commits it is ahead of and behind its remote.
#[derive(Debug)]
pub struct RepoStatus {
    pub changes: Option<Vec<(char, String)>>,
    pub branch: Option<String>,
    pub graph: Option<(usize, usize)>,
}

impl RepoStatus {
    /// The state made of what was read from a repository: the short name of
    /// its head, the distance to the remote branch, and the status of its
    /// paths. Without a head there is neither a branch nor a distance.
    pub fn from(
        head: Option<String>,
        ahead_behind: Option<(usize, usize)>,
        entries: Option<Vec<(EntryStatus, String)>>,
    ) -> (status: Self)
        ensures
            status.branch == head,
            status.graph == (if head is Some {
                ahead_behind
            } else {
                None
            }),
            match entries {
                Some(list) => status.changes is Some && lines_view(status.changes->Some_0@)
                    == lines_spec(list@, true) + lines_spec(list@, false),
                None => status.changes is None,
            },
    {
        let graph = if head.is_some() {
            ahead_behind
        } else {
            None
        };
        let changed = match entries {
            Some(list) => Some(changes(&list)),
            None => None,
        };
        RepoStatus { changes: changed, branch: head, graph }
    }
}

} // verus!
