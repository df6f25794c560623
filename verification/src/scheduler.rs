//! Admission of transfers to a bounded number of worker slots.
//!
//! Every submitted transfer gets a ticket: its place in the order of
//! submission. A ticket either starts at once or waits in line; each
//! completion hands the freed slot to the ticket that has waited longest.

use vstd::prelude::*;

verus! {

/// What a scheduler holds, as plain sequences of tickets.
pub struct Slots {
    /// Number of transfers that may run at once.
    pub limit: nat,
    /// Number of tickets handed out; the tickets are `0 .. submitted`.
    pub submitted: nat,
    /// Tickets in the order in which they got a slot.
    pub admitted: Seq<nat>,
    /// Tickets without a slot, the one that has waited longest first.
    pub waiting: Seq<nat>,
    /// Tickets that hold a slot.
    pub active: Seq<nat>,
    /// Tickets that gave their slot back, in the order in which they did.
    pub finished: Seq<nat>,
}

impl Slots {
    /// The state of a scheduler that no transfer has been submitted to.
    pub open spec fn fresh(limit: nat) -> Slots {
        Slots {
            limit,
            submitted: 0,
            admitted: Seq::empty(),
            waiting: Seq::empty(),
            active: Seq::empty(),
            finished: Seq::empty(),
        }
    }

    /// What holds of every state that a scheduler can reach.
    pub open spec fn wf(self) -> bool {
        &&& self.limit >= 1
        &&& self.admitted.len() + self.waiting.len() == self.submitted
        &&& forall|i: int| 0 <= i < self.admitted.len() ==> self.admitted[i] == i
        &&& forall|i: int|
            0 <= i < self.waiting.len() ==> self.waiting[i] == self.admitted.len() + i
        &&& self.active.no_duplicates()
        &&& self.finished.no_duplicates()
        &&& forall|t: nat| self.active.contains(t) ==> t < self.admitted.len()
        &&& forall|t: nat| self.finished.contains(t) ==> t < self.admitted.len()
        &&& forall|t: nat|
            t < self.admitted.len() ==> (self.active.contains(t) != self.finished.contains(t))
        &&& self.active.len() <= self.limit
        &&& self.waiting.len() > 0 ==> self.active.len() == self.limit
    }

    /// The state after one more transfer is submitted.
    pub open spec fn submit(self) -> Slots {
        if self.active.len() < self.limit {
            Slots {
                submitted: self.submitted + 1,
                admitted: self.admitted.push(self.submitted),
                active: self.active.push(self.submitted),
                ..self
            }
        } else {
            Slots { submitted: self.submitted + 1, waiting: self.waiting.push(self.submitted), ..self }
        }
    }

    /// The state after the transfer with `ticket` has ended. A ticket that
    /// holds no slot changes nothing.
    pub open spec fn finish(self, ticket: nat) -> Slots {
        if !self.active.contains(ticket) {
            self
        } else if self.waiting.len() == 0 {
            Slots {
                active: self.active.remove(self.active.index_of(ticket)),
                finished: self.finished.push(ticket),
                ..self
            }
        } else {
            Slots {
                admitted: self.admitted.push(self.waiting[0]),
                waiting: self.waiting.drop_first(),
                active: self.active.remove(self.active.index_of(ticket)).push(self.waiting[0]),
                finished: self.finished.push(ticket),
                ..self
            }
        }
    }

    /// Every transfer that was submitted has ended.
    pub open spec fn all_done(self) -> bool {
        self.finished.len() == self.submitted
    }
}

/// Why a scheduler could not be made.
#[derive(Clone, Copy, Debug, PartialEq, Eq, Structural)]
pub enum AdmissionError {
    /// With no slot at all every transfer would wait forever.
    NoSlots,
}

/// What a submitted transfer is told.
#[derive(Clone, Copy, Debug, PartialEq, Eq, Structural)]
pub struct Admission {
    /// The transfer's ticket.
    pub ticket: usize,
    /// Whether it holds a slot and starts now; otherwise it waits in line.
    pub start: bool,
}

/// What the end of a transfer did to the slots.
#[derive(Clone, Copy, Debug, PartialEq, Eq, Structural)]
pub enum Release {
    /// The ticket held no slot: nothing changed.
    NotActive,
    /// The slot is free: no transfer was waiting.
    Freed,
    /// The slot went to the ticket that had waited longest, which starts now.
    Handed(usize),
}

/// The worker slots of one run and the line of transfers that wait for one.
pub struct Scheduler {
    limit: usize,
    submitted: usize,
    admitted: Ghost<Seq<nat>>,
    waiting: Vec<usize>,
    active: Vec<usize>,
    finished: Vec<usize>,
}

pub open spec fn tickets(v: Seq<usize>) -> Seq<nat> {
    Seq::new(v.len(), |i: int| v[i] as nat)
}

impl View for Scheduler {
    type V = Slots;

    closed spec fn view(&self) -> Slots {
        Slots {
            limit: self.limit as nat,
            submitted: self.submitted as nat,
            admitted: self.admitted@,
            waiting: tickets(self.waiting@),
            active: tickets(self.active@),
            finished: tickets(self.finished@),
        }
    }
}

impl Scheduler {
    /// A scheduler with `limit` slots. A limit of zero is refused.
    pub fn new(limit: usize) -> (made: Result<Scheduler, AdmissionError>)
        ensures
            limit == 0 ==> made == Err::<Scheduler, AdmissionError>(AdmissionError::NoSlots),
            limit > 0 ==> made is Ok && made->Ok_0@ == Slots::fresh(limit as nat)
                && made->Ok_0@.wf(),
    {
        if limit == 0 {
            return Err(AdmissionError::NoSlots);
        }
        let scheduler = Scheduler {
            limit,
            submitted: 0,
            admitted: Ghost(Seq::empty()),
            waiting: Vec::new(),
            active: Vec::new(),
            finished: Vec::new(),
        };
        proof {
            assert(scheduler@.waiting =~= Seq::empty());
            assert(scheduler@.active =~= Seq::empty());
            assert(scheduler@.finished =~= Seq::empty());
        }
        Ok(scheduler)
    }

    /// Number of slots.
    pub fn limit(&self) -> (n: usize)
        ensures
            n == self@.limit,
    {
        self.limit
    }

    /// Number of transfers submitted so far.
    pub fn submitted(&self) -> (n: usize)
        ensures
            n == self@.submitted,
    {
        self.submitted
    }

    /// Number of transfers that hold a slot.
    pub fn active(&self) -> (n: usize)
        ensures
            n == self@.active.len(),
    {
        self.active.len()
    }

    /// Number of transfers that wait for a slot.
    pub fn waiting(&self) -> (n: usize)
        ensures
            n == self@.waiting.len(),
    {
        self.waiting.len()
    }

    /// Number of transfers that have ended.
    pub fn finished(&self) -> (n: usize)
        ensures
            n == self@.finished.len(),
    {
        self.finished.len()
    }

    /// Where `ticket` stands among the active ones.
    fn active_index(&self, ticket: usize) -> (found: Option<usize>)
        ensures
            match found {
                Some(i) => i < self@.active.len() && self@.active[i as int] == ticket,
                None => !self@.active.contains(ticket as nat),
            },
    {
        let mut i: usize = 0;
        while i < self.active.len()
            invariant
                i <= self.active@.len(),
                forall|j: int| 0 <= j < i ==> self@.active[j] != ticket,
            decreases self.active@.len() - i,
        {
            if self.active[i] == ticket {
                return Some(i);
            }
            i = i + 1;
        }
        None
    }

    /// Whether the transfer with `ticket` holds a slot.
    pub fn is_active(&self, ticket: usize) -> (held: bool)
        ensures
            held == self@.active.contains(ticket as nat),
    {
        match self.active_index(ticket) {
            Some(i) => {
                assert(self@.active[i as int] == ticket as nat);
                true
            },
            None => false,
        }
    }

    /// Submits one more transfer. It starts at once while a slot is free and
    /// joins the end of the line otherwise.
    pub fn submit(&mut self) -> (admission: Admission)
        requires
            old(self)@.wf(),
            old(self)@.submitted < usize::MAX,
        ensures
            final(self)@ == old(self)@.submit(),
            final(self)@.wf(),
            admission.ticket == old(self)@.submitted,
            admission.start == (old(self)@.active.len() < old(self)@.limit),
    {
        let ticket = self.submitted;
        let start = self.active.len() < self.limit;
        let ghost before = self@;
        self.submitted = self.submitted + 1;
        if start {
            self.active.push(ticket);
            proof {
                self.admitted@ = self.admitted@.push(ticket as nat);
            }
        } else {
            self.waiting.push(ticket);
        }
        proof {
            let after = self@;
            if start {
                assert(after.active =~= before.active.push(ticket as nat));
                assert(after.waiting =~= before.waiting);
            } else {
                assert(after.waiting =~= before.waiting.push(ticket as nat));
                assert(after.active =~= before.active);
            }
            assert(after.finished =~= before.finished);
            assert(after =~= before.submit());
            lemma_submit_wf(before);
        }
        Admission { ticket, start }
    }

    /// Records that the transfer with `ticket` has ended. Its slot goes to the
    /// ticket that has waited longest, if any waits.
    pub fn finish(&mut self, ticket: usize) -> (release: Release)
        requires
            old(self)@.wf(),
        ensures
            final(self)@ == old(self)@.finish(ticket as nat),
            final(self)@.wf(),
            release == (if !old(self)@.active.contains(ticket as nat) {
                Release::NotActive
            } else if old(self)@.waiting.len() == 0 {
                Release::Freed
            } else {
                Release::Handed(old(self)@.waiting[0] as usize)
            }),
    {
        let ghost before = self@;
        let found = self.active_index(ticket);
        let i = match found {
            Some(i) => i,
            None => {
                return Release::NotActive;
            },
        };
        proof {
            lemma_index_of_unique(before.active, i as int);
            lemma_finish_wf(before, ticket as nat);
        }
        self.active.remove(i);
        self.finished.push(ticket);
        let ghost midway = self@;
        proof {
            assert(midway.active =~= before.active.remove(i as int));
            assert(midway.finished =~= before.finished.push(ticket as nat));
            assert(midway.waiting =~= before.waiting);
        }
        if self.waiting.len() == 0 {
            proof {
                assert(midway =~= before.finish(ticket as nat));
            }
            Release::Freed
        } else {
            let next = self.waiting.remove(0);
            self.active.push(next);
            proof {
                self.admitted@ = self.admitted@.push(next as nat);
                let after = self@;
                assert(after.waiting =~= before.waiting.drop_first());
                assert(after.active =~= midway.active.push(next as nat));
                assert(after.finished =~= midway.finished);
                assert(after =~= before.finish(ticket as nat));
            }
            Release::Handed(next)
        }
    }
}

/// A sequence without duplicates stays so when an element it lacks is
/// appended, and then holds that element and the earlier ones.
pub proof fn lemma_push_fresh(s: Seq<nat>, t: nat)
    requires
        s.no_duplicates(),
        !s.contains(t),
    ensures
        s.push(t).no_duplicates(),
        forall|u: nat| s.push(t).contains(u) <==> (u == t || s.contains(u)),
{
    let after = s.push(t);
    assert forall|u: nat| after.contains(u) implies (u == t || s.contains(u)) by {
        let i = choose|i: int| 0 <= i < after.len() && after[i] == u;
        if i < s.len() {
            assert(s[i] == u);
        }
    }
    assert forall|u: nat| (u == t || s.contains(u)) implies after.contains(u) by {
        if s.contains(u) {
            let i = choose|i: int| 0 <= i < s.len() && s[i] == u;
            assert(after[i] == u);
        } else {
            assert(after[after.len() - 1] == u);
        }
    }
}

/// Taking one element out of a sequence without duplicates leaves the others,
/// and only them.
pub proof fn lemma_remove_one(s: Seq<nat>, i: int)
    requires
        s.no_duplicates(),
        0 <= i < s.len(),
    ensures
        s.remove(i).no_duplicates(),
        forall|u: nat| s.remove(i).contains(u) <==> (u != s[i] && s.contains(u)),
{
    let after = s.remove(i);
    assert forall|a: int, b: int| 0 <= a < after.len() && 0 <= b < after.len() && a != b implies after[a]
        != after[b] by {
        let a0 = if a < i { a } else { a + 1 };
        let b0 = if b < i { b } else { b + 1 };
        assert(s[a0] != s[b0]);
    }
    assert forall|u: nat| after.contains(u) implies (u != s[i] && s.contains(u)) by {
        let a = choose|a: int| 0 <= a < after.len() && after[a] == u;
        let a0 = if a < i { a } else { a + 1 };
        assert(s[a0] == u);
    }
    assert forall|u: nat| (u != s[i] && s.contains(u)) implies after.contains(u) by {
        let a0 = choose|a0: int| 0 <= a0 < s.len() && s[a0] == u;
        let a = if a0 < i { a0 } else { a0 - 1 };
        assert(after[a] == u);
    }
}

/// In a sequence without duplicates an element is found where it stands.
pub proof fn lemma_index_of_unique(s: Seq<nat>, i: int)
    requires
        s.no_duplicates(),
        0 <= i < s.len(),
    ensures
        s.contains(s[i]),
        s.index_of(s[i]) == i,
{
    assert(s.contains(s[i]));
    let j = s.index_of(s[i]);
    assert(0 <= j < s.len() && s[j] == s[i]);
}

/// The least of two counts.
pub open spec fn least(a: nat, b: nat) -> nat {
    if a <= b {
        a
    } else {
        b
    }
}

/// The state of a scheduler to which `count` transfers were submitted before
/// any of them ended: the first `limit` of them hold a slot, the others wait.
pub open spec fn queued(limit: nat, count: nat) -> Slots {
    let started = least(limit, count);
    Slots {
        limit,
        submitted: count,
        admitted: Seq::new(started, |i: int| i as nat),
        waiting: Seq::new((count - started) as nat, |i: int| (started + i) as nat),
        active: Seq::new(started, |i: int| i as nat),
        finished: Seq::empty(),
    }
}

/// Submitting one more transfer to a line of `count` makes a line of
/// `count + 1`.
pub proof fn lemma_queued_submit(limit: nat, count: nat)
    ensures
        queued(limit, count).submit() == queued(limit, count + 1),
{
    let before = queued(limit, count);
    let after = queued(limit, count + 1);
    let next = before.submit();
    assert(next.admitted =~= after.admitted);
    assert(next.waiting =~= after.waiting);
    assert(next.active =~= after.active);
    assert(next.finished =~= after.finished);
}

/// A scheduler with `limit` slots to which `count` transfers are submitted,
/// in their order. A limit of zero is refused before any of them starts.
pub fn schedule(count: usize, limit: usize) -> (made: Result<Scheduler, AdmissionError>)
    ensures
        limit == 0 ==> made == Err::<Scheduler, AdmissionError>(AdmissionError::NoSlots),
        limit > 0 ==> made is Ok && made->Ok_0@ == queued(limit as nat, count as nat)
            && made->Ok_0@.wf(),
{
    let mut scheduler = match Scheduler::new(limit) {
        Ok(scheduler) => scheduler,
        Err(error) => {
            return Err(error);
        },
    };
    assert(scheduler@ =~= queued(limit as nat, 0)) by {
        assert(queued(limit as nat, 0).admitted =~= Seq::empty());
        assert(queued(limit as nat, 0).waiting =~= Seq::empty());
        assert(queued(limit as nat, 0).active =~= Seq::empty());
    }
    let mut i: usize = 0;
    while i < count
        invariant
            i <= count,
            scheduler@ == queued(limit as nat, i as nat),
            scheduler@.wf(),
        decreases count - i,
    {
        proof {
            lemma_queued_submit(limit as nat, i as nat);
        }
        scheduler.submit();
        i = i + 1;
    }
    Ok(scheduler)
}

/// One thing that happens to a scheduler.
pub enum Step {
    /// A transfer is submitted.
    Submit,
    /// The transfer with this ticket ends.
    Finish(nat),
}

/// The state after one step.
pub open spec fn step(state: Slots, event: Step) -> Slots {
    match event {
        Step::Submit => state.submit(),
        Step::Finish(ticket) => state.finish(ticket),
    }
}

/// The state after a run of steps.
pub open spec fn run(state: Slots, steps: Seq<Step>) -> Slots
    decreases steps.len(),
{
    if steps.len() == 0 {
        state
    } else {
        step(run(state, steps.drop_last()), steps.last())
    }
}

/// A fresh scheduler with at least one slot is well-formed.
pub proof fn lemma_fresh_wf(limit: nat)
    requires
        limit >= 1,
    ensures
        Slots::fresh(limit).wf(),
{
}

/// Submitting a transfer keeps a scheduler well-formed.
pub proof fn lemma_submit_wf(state: Slots)
    requires
        state.wf(),
    ensures
        state.submit().wf(),
{
    let after = state.submit();
    let ticket = state.submitted;
    if state.active.len() < state.limit {
        assert(!state.active.contains(ticket));
        assert(!state.finished.contains(ticket));
        lemma_push_fresh(state.active, ticket);
        assert forall|t: nat| after.active.contains(t) implies t < after.admitted.len() by {
            assert(t == ticket || state.active.contains(t));
        }
        assert forall|t: nat| t < after.admitted.len() implies (after.active.contains(t)
            != after.finished.contains(t)) by {
            if t != ticket {
                assert(state.active.contains(t) != state.finished.contains(t));
            }
        }
    }
}

/// The end of a transfer keeps a scheduler well-formed.
pub proof fn lemma_finish_wf(state: Slots, ticket: nat)
    requires
        state.wf(),
    ensures
        state.finish(ticket).wf(),
{
    let after = state.finish(ticket);
    if state.active.contains(ticket) {
        let i = state.active.index_of(ticket);
        let rest = state.active.remove(i);
        let done = state.finished.push(ticket);
        lemma_remove_one(state.active, i);
        assert(!state.finished.contains(ticket));
        lemma_push_fresh(state.finished, ticket);
        assert forall|t: nat| t < state.admitted.len() implies (rest.contains(t) != done.contains(
            t,
        )) by {
            assert(state.active.contains(t) != state.finished.contains(t));
        }
        assert forall|t: nat| done.contains(t) implies t < state.admitted.len() by {
            assert(t == ticket || state.finished.contains(t));
        }
        if state.waiting.len() > 0 {
            let next = state.waiting[0];
            assert(next == state.admitted.len());
            assert(!rest.contains(next)) by {
                if rest.contains(next) {
                    assert(state.active.contains(next));
                }
            }
            assert(!done.contains(next)) by {
                if done.contains(next) {
                    assert(next == ticket || state.finished.contains(next));
                }
            }
            lemma_push_fresh(rest, next);
            assert forall|t: nat| after.active.contains(t) implies t < after.admitted.len() by {
                assert(t == next || rest.contains(t));
                if t != next {
                    assert(state.active.contains(t));
                }
            }
            assert forall|t: nat| t < after.admitted.len() implies (after.active.contains(t)
                != after.finished.contains(t)) by {
                if t != next {
                    assert(rest.contains(t) != done.contains(t));
                }
            }
            assert forall|k: int| 0 <= k < after.waiting.len() implies after.waiting[k]
                == after.admitted.len() + k by {
                assert(after.waiting[k] == state.waiting[k + 1]);
            }
        } else {
            assert forall|t: nat| after.active.contains(t) implies t < after.admitted.len() by {
                assert(state.active.contains(t));
            }
        }
    }
}

/// Whatever is submitted and whatever ends, in whatever order, a scheduler
/// that started fresh with at least one slot is well-formed.
pub proof fn lemma_run_wf(limit: nat, steps: Seq<Step>)
    requires
        limit >= 1,
    ensures
        run(Slots::fresh(limit), steps).wf(),
    decreases steps.len(),
{
    if steps.len() == 0 {
        lemma_fresh_wf(limit);
    } else {
        lemma_run_wf(limit, steps.drop_last());
        let before = run(Slots::fresh(limit), steps.drop_last());
        match steps.last() {
            Step::Submit => lemma_submit_wf(before),
            Step::Finish(ticket) => lemma_finish_wf(before, ticket),
        }
    }
}

/// Bounded admission: at no point of any run do more transfers hold a slot
/// than there are slots.
pub proof fn lemma_bounded_admission(limit: nat, steps: Seq<Step>)
    requires
        limit >= 1,
    ensures
        run(Slots::fresh(limit), steps).active.len() <= limit,
        run(Slots::fresh(limit), steps).limit == limit,
    decreases steps.len(),
{
    lemma_run_wf(limit, steps);
    if steps.len() > 0 {
        lemma_bounded_admission(limit, steps.drop_last());
    }
}

/// First come, first served: at every point of any run the transfers have
/// got their slots in the order in which they were submitted, and those that
/// wait stand in that order behind them.
pub proof fn lemma_fifo(limit: nat, steps: Seq<Step>)
    requires
        limit >= 1,
    ensures
        ({
            let state = run(Slots::fresh(limit), steps);
            &&& forall|i: int, j: int|
                0 <= i < j < state.admitted.len() ==> state.admitted[i] < state.admitted[j]
            &&& forall|i: int, j: int|
                0 <= i < j < state.waiting.len() ==> state.waiting[i] < state.waiting[j]
            &&& forall|i: int, j: int|
                0 <= i < state.admitted.len() && 0 <= j < state.waiting.len()
                    ==> state.admitted[i] < state.waiting[j]
        }),
{
    lemma_run_wf(limit, steps);
}

/// No transfer is lost: a well-formed scheduler holds every submitted ticket
/// in exactly one place, waiting, active or finished, and holds it there once.
pub proof fn lemma_every_ticket_once(state: Slots, ticket: nat)
    requires
        state.wf(),
        ticket < state.submitted,
    ensures
        (state.waiting.contains(ticket) && !state.active.contains(ticket)
            && !state.finished.contains(ticket)) || (!state.waiting.contains(ticket)
            && state.active.contains(ticket) && !state.finished.contains(ticket)) || (
        !state.waiting.contains(ticket) && !state.active.contains(ticket)
            && state.finished.contains(ticket)),
        state.waiting.no_duplicates(),
        state.active.no_duplicates(),
        state.finished.no_duplicates(),
{
    if ticket < state.admitted.len() {
        assert(state.active.contains(ticket) != state.finished.contains(ticket));
        if state.waiting.contains(ticket) {
            let i = choose|i: int| 0 <= i < state.waiting.len() && state.waiting[i] == ticket;
            assert(false);
        }
    } else {
        let i = ticket - state.admitted.len();
        assert(state.waiting[i] == ticket);
    }
}

/// A finished transfer stays finished, and only the end of an active transfer
/// adds one: each ticket is reported done once.
pub proof fn lemma_finished_grows(state: Slots, event: Step)
    requires
        state.wf(),
    ensures
        ({
            let after = step(state, event);
            match event {
                Step::Finish(ticket) if state.active.contains(ticket) => after.finished
                    == state.finished.push(ticket) && !state.finished.contains(ticket),
                _ => after.finished == state.finished,
            }
        }),
{
}

/// No stall: while a transfer has not ended, some transfer holds a slot, so
/// that the next completion is never owed by a transfer that waits.
pub proof fn lemma_no_stall(state: Slots)
    requires
        state.wf(),
        !state.all_done(),
    ensures
        state.active.len() > 0,
{
    if state.active.len() == 0 {
        assert(state.waiting.len() == 0);
        // Every admitted ticket has then finished, and there are as many.
        lemma_covers(state.finished, state.admitted.len());
    }
}

/// A sequence without duplicates that holds exactly the tickets below `n` has
/// length `n`.
pub proof fn lemma_covers(s: Seq<nat>, n: nat)
    requires
        s.no_duplicates(),
        forall|t: nat| s.contains(t) <==> t < n,
    ensures
        s.len() == n,
    decreases n,
{
    if n == 0 {
        if s.len() > 0 {
            assert(s.contains(s[0]));
        }
    } else {
        let last = (n - 1) as nat;
        assert(s.contains(last));
        let i = s.index_of(last);
        lemma_remove_one(s, i);
        assert forall|t: nat| s.remove(i).contains(t) <==> t < last by {
            assert(s.contains(t) <==> t < n);
        }
        lemma_covers(s.remove(i), last);
    }
}

/// The state after the active transfers have ended one after the other, the
/// first of them each time, until none is left.
pub open spec fn drain(state: Slots) -> Slots
    decreases state.submitted - state.finished.len(),
    when state.wf()
    via drain_decreases
{
    if state.all_done() || state.active.len() == 0 {
        state
    } else {
        drain(state.finish(state.active[0]))
    }
}

#[via_fn]
proof fn drain_decreases(state: Slots) {
    if !(state.all_done() || state.active.len() == 0) {
        let ticket = state.active[0];
        assert(state.active.contains(ticket));
        lemma_finish_wf(state, ticket);
        lemma_finished_bounded(state.finish(ticket));
    }
}

/// No more transfers have ended than were submitted.
pub proof fn lemma_finished_bounded(state: Slots)
    requires
        state.wf(),
    ensures
        state.finished.len() <= state.admitted.len() <= state.submitted,
        state.active.len() + state.finished.len() == state.admitted.len(),
{
    let both = state.active + state.finished;
    assert(both.no_duplicates()) by {
        assert forall|a: int, b: int| 0 <= a < both.len() && 0 <= b < both.len() && a
            != b implies both[a] != both[b] by {
            if a < state.active.len() && b >= state.active.len() {
                assert(state.active.contains(both[a]));
                assert(state.finished.contains(both[b]));
            }
            if b < state.active.len() && a >= state.active.len() {
                assert(state.active.contains(both[b]));
                assert(state.finished.contains(both[a]));
            }
        }
    }
    assert forall|t: nat| both.contains(t) <==> t < state.admitted.len() by {
        if both.contains(t) {
            let i = choose|i: int| 0 <= i < both.len() && both[i] == t;
            if i < state.active.len() {
                assert(state.active.contains(t));
            } else {
                assert(state.finished[i - state.active.len()] == t);
                assert(state.finished.contains(t));
            }
        }
        if t < state.admitted.len() {
            if state.active.contains(t) {
                let i = choose|i: int| 0 <= i < state.active.len() && state.active[i] == t;
                assert(both[i] == t);
            } else {
                assert(state.finished.contains(t));
                let i = choose|i: int| 0 <= i < state.finished.len() && state.finished[i] == t;
                assert(both[state.active.len() + i] == t);
            }
        }
    }
    lemma_covers(both, state.admitted.len());
}

/// No lost completion: once the transfers that hold a slot keep ending, every
/// submitted transfer ends, each of them once.
pub proof fn lemma_drain_completes(state: Slots)
    requires
        state.wf(),
    ensures
        drain(state).wf(),
        drain(state).all_done(),
        drain(state).submitted == state.submitted,
        drain(state).finished.no_duplicates(),
        forall|ticket: nat| ticket < state.submitted ==> drain(state).finished.contains(ticket),
    decreases state.submitted - state.finished.len(),
{
    if state.all_done() || state.active.len() == 0 {
        if !state.all_done() {
            lemma_no_stall(state);
        }
        lemma_finished_bounded(state);
        assert forall|ticket: nat| ticket < state.submitted implies state.finished.contains(
            ticket,
        ) by {
            lemma_every_ticket_once(state, ticket);
            if state.active.contains(ticket) {
                assert(state.active.len() > 0);
            }
            if state.waiting.contains(ticket) {
                assert(state.waiting.len() > 0);
            }
        }
    } else {
        let ticket = state.active[0];
        assert(state.active.contains(ticket));
        lemma_finish_wf(state, ticket);
        lemma_finished_bounded(state.finish(ticket));
        lemma_drain_completes(state.finish(ticket));
    }
}

} // verus!
