//! The table of the running transfers' progress and its sum.

use vstd::prelude::*;
use crate::gitutil::{ProgressObjects, Totals};

verus! {

/// Pointwise sum of the samples of a finite table, whatever the order they
/// are taken in.
pub open spec fn sum_of(table: Map<Seq<char>, ProgressObjects>) -> Totals
    decreases table.dom().len(),
    when table.dom().finite()
{
    if table.dom().len() == 0 {
        Totals::zero()
    } else {
        let id = table.dom().choose();
        table[id].totals().plus(sum_of(table.remove(id)))
    }
}

/// The sum of a table is the sample of any one identity plus the sum of the
/// rest.
pub proof fn lemma_sum_split(table: Map<Seq<char>, ProgressObjects>, id: Seq<char>)
    requires
        table.dom().finite(),
        table.contains_key(id),
    ensures
        sum_of(table) == table[id].totals().plus(sum_of(table.remove(id))),
    decreases table.dom().len(),
{
    let first = table.dom().choose();
    assert(table.dom().len() != 0) by {
        if table.dom().len() == 0 {
            assert(table.dom() =~= Set::empty());
        }
    }
    if first != id {
        let without_first = table.remove(first);
        let without_id = table.remove(id);
        assert(without_first.dom() == table.dom().remove(first));
        assert(without_id.dom() == table.dom().remove(id));
        lemma_sum_split(without_first, id);
        lemma_sum_split(without_id, first);
        assert(without_first.remove(id) =~= without_id.remove(first));
    }
}

/// Writing one sample changes the sum by that sample, less the one it replaces.
pub proof fn lemma_sum_insert(
    table: Map<Seq<char>, ProgressObjects>,
    id: Seq<char>,
    sample: ProgressObjects,
)
    requires
        table.dom().finite(),
    ensures
        sum_of(table.insert(id, sample)) == sample.totals().plus(sum_of(table.remove(id))),
{
    lemma_sum_split(table.insert(id, sample), id);
    assert(table.insert(id, sample).remove(id) =~= table.remove(id));
}

/// A table is never in debt: its sum has no negative count.
pub proof fn lemma_sum_nonnegative(table: Map<Seq<char>, ProgressObjects>)
    requires
        table.dom().finite(),
    ensures
        sum_of(table).total >= 0,
        sum_of(table).received >= 0,
        sum_of(table).indexed >= 0,
    decreases table.dom().len(),
{
    if table.dom().len() != 0 {
        let id = table.dom().choose();
        lemma_sum_nonnegative(table.remove(id));
    }
}

/// The table that a list of entries stands for: a later entry for an
/// identity replaces an earlier one.
pub open spec fn table_of(pairs: Seq<(Seq<char>, ProgressObjects)>) -> Map<
    Seq<char>,
    ProgressObjects,
>
    decreases pairs.len(),
{
    if pairs.len() == 0 {
        Map::empty()
    } else {
        table_of(pairs.drop_last()).insert(pairs.last().0, pairs.last().1)
    }
}

/// No identity occurs twice in the list.
pub open spec fn distinct(pairs: Seq<(Seq<char>, ProgressObjects)>) -> bool {
    forall|i: int, j: int| 0 <= i < j < pairs.len() ==> pairs[i].0 != pairs[j].0
}

/// The table of a list holds exactly the identities of the list.
pub proof fn lemma_table_domain(pairs: Seq<(Seq<char>, ProgressObjects)>)
    ensures
        table_of(pairs).dom().finite(),
        forall|id: Seq<char>|
            table_of(pairs).contains_key(id) <==> exists|i: int|
                0 <= i < pairs.len() && #[trigger] pairs[i].0 == id,
    decreases pairs.len(),
{
    if pairs.len() > 0 {
        let front = pairs.drop_last();
        lemma_table_domain(front);
        assert forall|id: Seq<char>| table_of(pairs).contains_key(id) implies exists|i: int|
            0 <= i < pairs.len() && #[trigger] pairs[i].0 == id by {
            if id == pairs.last().0 {
                assert(pairs[pairs.len() - 1].0 == id);
            } else {
                let i = choose|i: int| 0 <= i < front.len() && #[trigger] front[i].0 == id;
                assert(pairs[i].0 == id);
            }
        }
        assert forall|id: Seq<char>|
            (exists|i: int| 0 <= i < pairs.len() && #[trigger] pairs[i].0 == id) implies table_of(
            pairs,
        ).contains_key(id) by {
            let i = choose|i: int| 0 <= i < pairs.len() && #[trigger] pairs[i].0 == id;
            if i < front.len() {
                assert(front[i].0 == id);
            }
        }
    }
}

/// In a list without repeated identities each entry is what the table holds
/// for its identity.
pub proof fn lemma_table_lookup(pairs: Seq<(Seq<char>, ProgressObjects)>, i: int)
    requires
        distinct(pairs),
        0 <= i < pairs.len(),
    ensures
        table_of(pairs).contains_key(pairs[i].0),
        table_of(pairs)[pairs[i].0] == pairs[i].1,
    decreases pairs.len(),
{
    if i < pairs.len() - 1 {
        let front = pairs.drop_last();
        assert(distinct(front)) by {
            assert forall|a: int, b: int| 0 <= a < b < front.len() implies front[a].0
                != front[b].0 by {
                assert(pairs[a].0 != pairs[b].0);
            }
        }
        lemma_table_lookup(front, i);
        assert(front[i] == pairs[i]);
    }
}

/// Replacing the sample of one entry writes that sample into the table.
pub proof fn lemma_table_update(
    pairs: Seq<(Seq<char>, ProgressObjects)>,
    i: int,
    sample: ProgressObjects,
)
    requires
        distinct(pairs),
        0 <= i < pairs.len(),
    ensures
        distinct(pairs.update(i, (pairs[i].0, sample))),
        table_of(pairs.update(i, (pairs[i].0, sample))) == table_of(pairs).insert(
            pairs[i].0,
            sample,
        ),
    decreases pairs.len(),
{
    let after = pairs.update(i, (pairs[i].0, sample));
    let front = pairs.drop_last();
    assert(distinct(front)) by {
        assert forall|a: int, b: int| 0 <= a < b < front.len() implies front[a].0 != front[b].0 by {
            assert(pairs[a].0 != pairs[b].0);
        }
    }
    if i == pairs.len() - 1 {
        assert(after.drop_last() =~= front);
        assert(table_of(after) =~= table_of(pairs).insert(pairs[i].0, sample));
    } else {
        lemma_table_update(front, i, sample);
        assert(after.drop_last() =~= front.update(i, (front[i].0, sample)));
        assert(after.last() == pairs.last());
        assert(pairs[i].0 != pairs[pairs.len() - 1].0);
        assert(table_of(after) =~= table_of(pairs).insert(pairs[i].0, sample));
    }
}

/// Taking one entry out of the list takes its identity out of the table.
pub proof fn lemma_table_remove(pairs: Seq<(Seq<char>, ProgressObjects)>, i: int)
    requires
        distinct(pairs),
        0 <= i < pairs.len(),
    ensures
        distinct(pairs.remove(i)),
        table_of(pairs.remove(i)) == table_of(pairs).remove(pairs[i].0),
    decreases pairs.len(),
{
    let after = pairs.remove(i);
    let front = pairs.drop_last();
    assert(distinct(front)) by {
        assert forall|a: int, b: int| 0 <= a < b < front.len() implies front[a].0 != front[b].0 by {
            assert(pairs[a].0 != pairs[b].0);
        }
    }
    assert(distinct(after)) by {
        assert forall|a: int, b: int| 0 <= a < b < after.len() implies after[a].0 != after[b].0 by {
            let a0 = if a < i { a } else { a + 1 };
            let b0 = if b < i { b } else { b + 1 };
            assert(pairs[a0].0 != pairs[b0].0);
        }
    }
    if i == pairs.len() - 1 {
        assert(after =~= front);
        lemma_table_domain(front);
        assert(!table_of(front).contains_key(pairs[i].0)) by {
            if table_of(front).contains_key(pairs[i].0) {
                let j = choose|j: int| 0 <= j < front.len() && #[trigger] front[j].0 == pairs[i].0;
                assert(pairs[j].0 != pairs[i].0);
            }
        }
        assert(table_of(after) =~= table_of(pairs).remove(pairs[i].0));
    } else {
        lemma_table_remove(front, i);
        assert(after.drop_last() =~= front.remove(i));
        assert(after.last() == pairs.last());
        assert(pairs[i].0 != pairs[pairs.len() - 1].0);
        assert(table_of(after) =~= table_of(pairs).remove(pairs[i].0));
    }
}

/// The table after a run of updates, each writing one sample for one
/// identity.
pub open spec fn replayed(
    start: Map<Seq<char>, ProgressObjects>,
    updates: Seq<(Seq<char>, ProgressObjects)>,
) -> Map<Seq<char>, ProgressObjects>
    decreases updates.len(),
{
    if updates.len() == 0 {
        start
    } else {
        replayed(start, updates.drop_last()).insert(updates.last().0, updates.last().1)
    }
}

/// The updates of a run leave on the table the latest sample of each identity
/// they name, and what was there before of every other identity.
pub proof fn lemma_replayed_holds_latest(
    start: Map<Seq<char>, ProgressObjects>,
    updates: Seq<(Seq<char>, ProgressObjects)>,
)
    requires
        start.dom().finite(),
    ensures
        replayed(start, updates).dom().finite(),
        forall|i: int|
            0 <= i < updates.len() && (forall|j: int|
                i < j < updates.len() ==> updates[j].0 != updates[i].0) ==> replayed(
                start,
                updates,
            ).contains_key(#[trigger] updates[i].0) && replayed(start, updates)[updates[i].0]
                == updates[i].1,
        forall|id: Seq<char>|
            (forall|i: int| 0 <= i < updates.len() ==> updates[i].0 != id) ==> (#[trigger] replayed(
                start,
                updates,
            ).contains_key(id) == start.contains_key(id)) && (start.contains_key(id) ==> replayed(
                start,
                updates,
            )[id] == start[id]),
    decreases updates.len(),
{
    if updates.len() > 0 {
        let front = updates.drop_last();
        let end = replayed(start, updates);
        lemma_replayed_holds_latest(start, front);
        assert forall|i: int|
            0 <= i < updates.len() && (forall|j: int|
                i < j < updates.len() ==> updates[j].0 != updates[i].0) implies end.contains_key(
            #[trigger] updates[i].0,
        ) && end[updates[i].0] == updates[i].1 by {
            if i < front.len() {
                assert(updates[updates.len() - 1].0 != updates[i].0);
                assert(front[i] == updates[i]);
                assert forall|j: int| i < j < front.len() implies front[j].0 != front[i].0 by {
                    assert(updates[j].0 != updates[i].0);
                }
            }
        }
        assert forall|id: Seq<char>|
            (forall|i: int| 0 <= i < updates.len() ==> updates[i].0 != id) implies (
        #[trigger] end.contains_key(id) == start.contains_key(id)) && (start.contains_key(id)
            ==> end[id] == start[id]) by {
            assert(updates[updates.len() - 1].0 != id);
            assert forall|i: int| 0 <= i < front.len() implies front[i].0 != id by {
                assert(updates[i].0 != id);
            }
        }
    }
}

/// The sum of the samples does not depend on the order in which they are
/// taken: the sum of a table is the sum of any list of its entries.
pub proof fn lemma_sum_any_order(pairs: Seq<(Seq<char>, ProgressObjects)>)
    requires
        distinct(pairs),
    ensures
        sum_of(table_of(pairs)) == list_sum(pairs),
    decreases pairs.len(),
{
    if pairs.len() > 0 {
        let front = pairs.drop_last();
        assert(distinct(front)) by {
            assert forall|a: int, b: int| 0 <= a < b < front.len() implies front[a].0
                != front[b].0 by {
                assert(pairs[a].0 != pairs[b].0);
            }
        }
        lemma_sum_any_order(front);
        lemma_table_domain(front);
        assert(!table_of(front).contains_key(pairs.last().0)) by {
            if table_of(front).contains_key(pairs.last().0) {
                let j = choose|j: int| 0 <= j < front.len() && #[trigger] front[j].0 == pairs.last().0;
                assert(pairs[j].0 != pairs[pairs.len() - 1].0);
            }
        }
        lemma_sum_insert(table_of(front), pairs.last().0, pairs.last().1);
        assert(table_of(front).remove(pairs.last().0) =~= table_of(front));
    } else {
        assert(table_of(pairs).dom() =~= Set::empty());
    }
}

/// Pointwise sum of the samples of a list, from the first entry to the last.
pub open spec fn list_sum(pairs: Seq<(Seq<char>, ProgressObjects)>) -> Totals
    decreases pairs.len(),
{
    if pairs.len() == 0 {
        Totals::zero()
    } else {
        list_sum(pairs.drop_last()).plus(pairs.last().1.totals())
    }
}

/// One row of the board: a transfer and its latest sample.
pub struct Entry {
    id: String,
    sample: ProgressObjects,
}

/// The latest sample of every running transfer, by the transfer's identity.
///
/// Its view is the table from identity to sample. The sum of a well-formed
/// board can be held in a `ProgressObjects`.
pub struct ProgressBoard {
    entries: Vec<Entry>,
}

impl View for ProgressBoard {
    type V = Map<Seq<char>, ProgressObjects>;

    closed spec fn view(&self) -> Map<Seq<char>, ProgressObjects> {
        table_of(self.pairs())
    }
}

impl ProgressBoard {
    /// The rows as pairs of identity and sample.
    pub closed spec fn pairs(&self) -> Seq<(Seq<char>, ProgressObjects)> {
        Seq::new(self.entries@.len(), |i: int| (self.entries@[i].id@, self.entries@[i].sample))
    }

    /// No identity has two rows, and the sum of the samples has no count
    /// above `u64::MAX`.
    pub closed spec fn wf(&self) -> bool {
        &&& distinct(self.pairs())
        &&& sum_of(self@).fits()
    }

    /// The board can take `sample` for `id` and stay well-formed.
    pub open spec fn fits_with(&self, id: Seq<char>, sample: ProgressObjects) -> bool {
        sample.totals().plus(sum_of(self@.remove(id))).fits()
    }

    /// The table of a board has finitely many identities.
    pub proof fn lemma_finite(&self)
        ensures
            self@.dom().finite(),
    {
        lemma_table_domain(self.pairs());
    }

    /// A board without transfers.
    pub fn new() -> (board: Self)
        ensures
            board.wf(),
            board@ == Map::<Seq<char>, ProgressObjects>::empty(),
    {
        let board = ProgressBoard { entries: Vec::new() };
        assert(board.pairs() =~= Seq::empty());
        board
    }

    /// The row of `id`, if it has one.
    fn position(&self, id: &str) -> (found: Option<usize>)
        requires
            distinct(self.pairs()),
        ensures
            match found {
                Some(i) => i < self.entries@.len() && self.pairs()[i as int].0 == id@
                    && self@.contains_key(id@) && self@[id@] == self.pairs()[i as int].1,
                None => !self@.contains_key(id@),
            },
    {
        let mut i: usize = 0;
        while i < self.entries.len()
            invariant
                distinct(self.pairs()),
                i <= self.entries@.len(),
                forall|j: int| 0 <= j < i ==> self.pairs()[j].0 != id@,
            decreases self.entries@.len() - i,
        {
            if self.entries[i].id.as_str().eq(id) {
                proof {
                    lemma_table_lookup(self.pairs(), i as int);
                }
                return Some(i);
            }
            i = i + 1;
        }
        proof {
            lemma_table_domain(self.pairs());
        }
        None
    }

    /// Sum of the rows but the one at `skip`, without a bound on the result.
    fn sum_except(&self, skip: Option<usize>) -> (sum: (u128, u128, u128))
        requires
            distinct(self.pairs()),
            skip matches Some(i) ==> i < self.entries@.len(),
        ensures
            ({
                let rest = match skip {
                    Some(i) => self@.remove(self.pairs()[i as int].0),
                    None => self@,
                };
                &&& sum.0 == sum_of(rest).total
                &&& sum.1 == sum_of(rest).received
                &&& sum.2 == sum_of(rest).indexed
                &&& sum.0 <= self.entries@.len() * u64::MAX
                &&& sum.1 <= self.entries@.len() * u64::MAX
                &&& sum.2 <= self.entries@.len() * u64::MAX
            }),
    {
        let ghost pairs = self.pairs();
        let ghost skipped: int = match skip {
            Some(i) => i as int,
            None => -1,
        };
        let mut total: u128 = 0;
        let mut received: u128 = 0;
        let mut indexed: u128 = 0;
        let mut i: usize = 0;
        // The rows seen so far, without the skipped one.
        let ghost mut seen: Seq<(Seq<char>, ProgressObjects)> = Seq::empty();
        while i < self.entries.len()
            invariant
                pairs == self.pairs(),
                i <= self.entries@.len(),
                skipped == (match skip {
                    Some(i) => i as int,
                    None => -1,
                }),
                -1 <= skipped < pairs.len(),
                seen =~= (if 0 <= skipped < i {
                    pairs.take(i as int).remove(skipped)
                } else {
                    pairs.take(i as int)
                }),
                total == list_sum(seen).total,
                received == list_sum(seen).received,
                indexed == list_sum(seen).indexed,
                total <= i * u64::MAX,
                received <= i * u64::MAX,
                indexed <= i * u64::MAX,
            decreases self.entries@.len() - i,
        {
            let take_row = match skip {
                Some(s) => s != i,
                None => true,
            };
            assert(i * u64::MAX + u64::MAX == (i + 1) * u64::MAX) by (nonlinear_arith);
            assert((i + 1) * u64::MAX <= usize::MAX * u64::MAX) by (nonlinear_arith)
                requires
                    i + 1 <= usize::MAX,
            ;
            if take_row {
                let sample = self.entries[i].sample;
                proof {
                    let before = seen;
                    seen = before.push(pairs[i as int]);
                    assert(seen.drop_last() =~= before);
                }
                total = total + sample.total as u128;
                received = received + sample.received as u128;
                indexed = indexed + sample.indexed as u128;
            }
            i = i + 1;
        }
        proof {
            assert(pairs.take(i as int) =~= pairs);
            if skipped >= 0 {
                lemma_table_remove(pairs, skipped);
                assert(seen =~= pairs.remove(skipped));
            } else {
                assert(seen =~= pairs);
            }
            lemma_sum_any_order(seen);
        }
        (total, received, indexed)
    }

    /// Whether the board can take `sample` for `id`.
    pub fn can_hold(&self, id: &str, sample: ProgressObjects) -> (ok: bool)
        requires
            self.wf(),
        ensures
            ok == self.fits_with(id@, sample),
    {
        let found = self.position(id);
        let rest = self.sum_except(found);
        let rows = self.entries.len();
        proof {
            if found is None {
                assert(self@.remove(id@) =~= self@);
            }
            assert(rows * u64::MAX + u64::MAX <= u128::MAX) by (nonlinear_arith)
                requires
                    rows <= usize::MAX,
            ;
        }
        let limit: u128 = u64::MAX as u128;
        rest.0 + sample.total as u128 <= limit && rest.1 + sample.received as u128 <= limit
            && rest.2 + sample.indexed as u128 <= limit
    }

    /// The sample that the board holds for `id`.
    pub fn get(&self, id: &str) -> (sample: Option<ProgressObjects>)
        requires
            self.wf(),
        ensures
            sample == (if self@.contains_key(id@) {
                Some(self@[id@])
            } else {
                None
            }),
    {
        match self.position(id) {
            Some(i) => Some(self.entries[i].sample),
            None => None,
        }
    }

    /// The pointwise sum of all samples on the board.
    pub fn aggregate(&self) -> (sum: ProgressObjects)
        requires
            self.wf(),
        ensures
            sum.totals() == sum_of(self@),
    {
        let sum = self.sum_except(None);
        ProgressObjects { total: sum.0 as u64, received: sum.1 as u64, indexed: sum.2 as u64 }
    }

    /// Writes `sample` as the latest of `id`, with or without an earlier one.
    fn put(&mut self, id: &str, sample: ProgressObjects)
        requires
            old(self).wf(),
            old(self).fits_with(id@, sample),
        ensures
            final(self).wf(),
            final(self)@ == old(self)@.insert(id@, sample),
    {
        let ghost before = self.pairs();
        proof {
            self.lemma_finite();
            lemma_sum_insert(self@, id@, sample);
        }
        match self.position(id) {
            Some(i) => {
                let row = Entry { id: self.entries[i].id.clone(), sample };
                self.entries.set(i, row);
                proof {
                    lemma_table_update(before, i as int, sample);
                    assert(self.pairs() =~= before.update(i as int, (before[i as int].0, sample)));
                }
            },
            None => {
                self.entries.push(Entry { id: id.to_owned(), sample });
                proof {
                    assert(self.pairs() =~= before.push((id@, sample)));
                    assert(self.pairs().drop_last() =~= before);
                    lemma_table_domain(before);
                    assert(distinct(self.pairs())) by {
                        assert forall|a: int, b: int|
                            0 <= a < b < self.pairs().len() implies self.pairs()[a].0
                            != self.pairs()[b].0 by {
                            if b < before.len() {
                                assert(before[a].0 != before[b].0);
                            } else {
                                assert(before[a].0 == self.pairs()[a].0);
                            }
                        }
                    }
                }
            },
        }
    }

    /// Enters a transfer that begins, with the default sample.
    pub fn init(&mut self, id: &str)
        requires
            old(self).wf(),
            old(self).fits_with(id@, ProgressObjects { total: 1, received: 0, indexed: 0 }),
        ensures
            final(self).wf(),
            final(self)@ == old(self)@.insert(
                id@,
                ProgressObjects { total: 1, received: 0, indexed: 0 },
            ),
    {
        self.put(id, ProgressObjects::default());
    }

    /// Records the latest sample of `id` and returns the new sum of the board.
    pub fn update(&mut self, id: &str, sample: ProgressObjects) -> (sum: ProgressObjects)
        requires
            old(self).wf(),
            old(self).fits_with(id@, sample),
        ensures
            final(self).wf(),
            final(self)@ == old(self)@.insert(id@, sample),
            sum.totals() == sum_of(final(self)@),
    {
        self.put(id, sample);
        self.aggregate()
    }

    /// Records the latest sample of `id` where the board can take it, and
    /// returns the new sum; leaves the board as it is where it cannot.
    pub fn try_update(&mut self, id: &str, sample: ProgressObjects) -> (sum: Option<
        ProgressObjects,
    >)
        requires
            old(self).wf(),
        ensures
            final(self).wf(),
            old(self).fits_with(id@, sample) ==> final(self)@ == old(self)@.insert(id@, sample)
                && sum is Some && sum->Some_0.totals() == sum_of(final(self)@),
            !old(self).fits_with(id@, sample) ==> final(self)@ == old(self)@ && sum is None,
    {
        if self.can_hold(id, sample) {
            Some(self.update(id, sample))
        } else {
            None
        }
    }

    /// Pins the sample of `id` at its total; a board without `id` stays as it is.
    pub fn complete(&mut self, id: &str)
        requires
            old(self).wf(),
            old(self)@.contains_key(id@) ==> old(self).fits_with(
                id@,
                old(self)@[id@].completed(),
            ),
        ensures
            final(self).wf(),
            final(self)@ == (if old(self)@.contains_key(id@) {
                old(self)@.insert(id@, old(self)@[id@].completed())
            } else {
                old(self)@
            }),
    {
        match self.get(id) {
            Some(sample) => self.put(id, sample.complete()),
            None => {},
        }
    }

    /// Takes `id` off the board; a board without `id` stays as it is.
    pub fn remove(&mut self, id: &str)
        requires
            old(self).wf(),
        ensures
            final(self).wf(),
            final(self)@ == old(self)@.remove(id@),
    {
        let ghost before = self.pairs();
        proof {
            self.lemma_finite();
        }
        match self.position(id) {
            Some(i) => {
                self.entries.remove(i);
                proof {
                    lemma_table_remove(before, i as int);
                    assert(self.pairs() =~= before.remove(i as int));
                    lemma_sum_split(old(self)@, id@);
                    lemma_table_domain(self.pairs());
                    lemma_sum_nonnegative(self@);
                }
            },
            None => {
                assert(self@.remove(id@) =~= self@);
            },
        }
    }
}

} // verus!
