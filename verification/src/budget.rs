//! The outbound message budget of a session.

use vstd::prelude::*;

verus! {

/// Maximum number of outbound session messages between explicit user inputs.
pub const OUTBOUND_MESSAGE_LIMIT: usize = 4;

/// What a budget counts: the slots taken since the last reset, and which
/// stretch between two resets they belong to.
#[derive(Clone, Copy, Debug, PartialEq, Eq, Structural)]
pub struct BudgetState {
    pub epoch: u64,
    pub reservations: usize,
}

/// Bounds how many messages one session may send before the user types again,
/// so a runaway agent cannot flood its peers.
#[derive(Debug)]
pub struct SessionMessageBudget {
    state: BudgetState,
}

/// One message slot taken out of a budget. It ends with
/// [`SessionMessageBudget::release`] on that budget, which gives the slot back
/// unless the reservation was committed first. A reservation does not know its
/// budget: one that is just dropped keeps its slot taken until the next reset.
#[must_use]
#[derive(Debug)]
pub struct SessionMessageReservation {
    epoch: u64,
    committed: bool,
}

impl View for SessionMessageBudget {
    type V = BudgetState;

    closed spec fn view(&self) -> BudgetState {
        self.state
    }
}

/// What a reservation stands for: the epoch it was taken in, and whether its
/// message has been accepted.
pub struct ReservationView {
    pub epoch: u64,
    pub committed: bool,
}

impl View for SessionMessageReservation {
    type V = ReservationView;

    closed spec fn view(&self) -> ReservationView {
        ReservationView { epoch: self.epoch, committed: self.committed }
    }
}

impl BudgetState {
    /// A budget never has more slots taken than there are.
    pub open spec fn wf(self) -> bool {
        self.reservations <= OUTBOUND_MESSAGE_LIMIT
    }

    pub open spec fn fresh() -> BudgetState {
        BudgetState { epoch: 0, reservations: 0 }
    }

    /// Whether no slot is left.
    pub open spec fn is_spent(self) -> bool {
        self.reservations >= OUTBOUND_MESSAGE_LIMIT
    }

    /// The budget with one more slot taken.
    pub open spec fn with_slot_taken(self) -> BudgetState {
        BudgetState { epoch: self.epoch, reservations: (self.reservations + 1) as usize }
    }

    /// The slot that is taken next.
    pub open spec fn next_slot(self) -> ReservationView {
        ReservationView { epoch: self.epoch, committed: false }
    }

    /// The budget at the start of the next epoch. The epoch counter wraps.
    pub open spec fn after_reset(self) -> BudgetState {
        BudgetState {
            epoch: if self.epoch == u64::MAX { 0 } else { (self.epoch + 1) as u64 },
            reservations: 0,
        }
    }

    /// The budget after a slot of `epoch` came back: slots of another epoch
    /// change nothing.
    pub open spec fn refunded(self, epoch: u64) -> BudgetState {
        if self.epoch == epoch && self.reservations > 0 {
            BudgetState { epoch: self.epoch, reservations: (self.reservations - 1) as usize }
        } else {
            self
        }
    }

    /// The budget once a reservation is gone: an uncommitted one is refunded.
    pub open spec fn released(self, reservation: ReservationView) -> BudgetState {
        if reservation.committed {
            self
        } else {
            self.refunded(reservation.epoch)
        }
    }
}

impl Default for SessionMessageBudget {
    fn default() -> (budget: Self)
        ensures
            budget@ == BudgetState::fresh(),
            budget@.wf(),
            budget@.reservations == 0 && budget@.epoch == 0,
    {
        SessionMessageBudget { state: BudgetState { epoch: 0, reservations: 0 } }
    }
}

impl SessionMessageBudget {
    /// Reserves one message slot, or returns `None` once the budget is spent.
    /// A reservation released without [`SessionMessageReservation::commit`] is
    /// refunded; one that is dropped without being released keeps its slot
    /// taken.
    #[must_use]
    pub fn reserve(&mut self) -> (reservation: Option<SessionMessageReservation>)
        ensures
            reservation is None <==> old(self)@.is_spent(),
            reservation is None ==> final(self)@ == old(self)@,
            reservation matches Some(slot) ==> slot@ == old(self)@.next_slot() && final(self)@
                == old(self)@.with_slot_taken(),
            old(self)@.wf() ==> final(self)@.wf(),
            reservation is Some <==> old(self)@.reservations < 4,
            final(self)@.epoch == old(self)@.epoch,
            reservation is Some ==> final(self)@.reservations == old(self)@.reservations + 1,
            reservation matches Some(slot) ==> slot@.epoch == old(self)@.epoch && !slot@.committed,
    {
        if self.state.reservations >= OUTBOUND_MESSAGE_LIMIT {
            return None;
        }
        self.state.reservations = self.state.reservations + 1;
        Some(SessionMessageReservation { epoch: self.state.epoch, committed: false })
    }

    /// Starts a fresh budget; reservations from the previous epoch no longer
    /// refund into it.
    pub fn reset(&mut self)
        ensures
            final(self)@ == old(self)@.after_reset(),
            final(self)@.wf(),
            final(self)@.reservations == 0,
            final(self)@.epoch as int == (old(self)@.epoch + 1) % 0x1_0000_0000_0000_0000,
    {
        self.state.epoch = self.state.epoch.wrapping_add(1);
        self.state.reservations = 0;
    }

    /// Gives back a slot that was taken in `epoch`.
    pub fn refund(&mut self, epoch: u64)
        ensures
            final(self)@ == old(self)@.refunded(epoch),
            old(self)@.wf() ==> final(self)@.wf(),
            final(self)@.epoch == old(self)@.epoch,
            epoch != old(self)@.epoch || old(self)@.reservations == 0 ==> final(self)@ == old(
                self,
            )@,
            epoch == old(self)@.epoch && old(self)@.reservations > 0
                ==> final(self)@.reservations == old(self)@.reservations - 1,
    {
        if self.state.epoch == epoch {
            self.state.reservations = self.state.reservations.saturating_sub(1);
        }
    }

    /// Ends a reservation that was taken out of this budget: one that was not
    /// committed is refunded.
    pub fn release(&mut self, reservation: SessionMessageReservation)
        ensures
            final(self)@ == old(self)@.released(reservation@),
            old(self)@.wf() ==> final(self)@.wf(),
            final(self)@.epoch == old(self)@.epoch,
            reservation@.committed || reservation@.epoch != old(self)@.epoch || old(
                self,
            )@.reservations == 0 ==> final(self)@ == old(self)@,
            !reservation@.committed && reservation@.epoch == old(self)@.epoch && old(
                self,
            )@.reservations > 0 ==> final(self)@.reservations == old(self)@.reservations - 1,
    {
        if !reservation.committed {
            self.refund(reservation.epoch);
        }
    }

    /// The current counts.
    pub fn state(&self) -> (state: BudgetState)
        ensures
            state == self@,
    {
        self.state
    }
}

impl SessionMessageReservation {
    /// Marks the reservation as used, once the message has been accepted for
    /// delivery: releasing it gives nothing back any more.
    pub fn commit(self) -> (committed: SessionMessageReservation)
        ensures
            committed@ == (ReservationView { epoch: self@.epoch, committed: true }),
    {
        SessionMessageReservation { epoch: self.epoch, committed: true }
    }
}

/// One thing that can happen to a budget. A slot is named by its place among
/// the reservations that are open at that moment.
pub enum BudgetEvent {
    /// A message asks for a slot.
    Reserve,
    /// The message of an open reservation was accepted.
    Accept { slot: int },
    /// An open reservation is released without its message being accepted.
    Abandon { slot: int },
    /// The user gave explicit input.
    UserInput,
}

/// A reservation that is neither accepted nor abandoned yet, with the number
/// of user inputs there had been when it was taken.
pub struct OpenSlot {
    pub reservation: ReservationView,
    pub inputs: nat,
}

/// A budget together with the record of what became of its slots.
pub struct BudgetRun {
    pub budget: BudgetState,
    /// Reservations that are still open, oldest first.
    pub open: Seq<OpenSlot>,
    /// Messages accepted on slots taken since the last user input.
    pub accepted: nat,
    /// How often the user gave explicit input.
    pub inputs: nat,
}

impl BudgetRun {
    pub open spec fn start() -> BudgetRun {
        BudgetRun {
            budget: BudgetState::fresh(),
            open: Seq::empty(),
            accepted: 0,
            inputs: 0,
        }
    }

    /// What one event does. An event that names no open reservation does
    /// nothing.
    pub open spec fn step(self, event: BudgetEvent) -> BudgetRun {
        match event {
            BudgetEvent::Reserve => if self.budget.is_spent() {
                self
            } else {
                BudgetRun {
                    budget: self.budget.with_slot_taken(),
                    open: self.open.push(
                        OpenSlot { reservation: self.budget.next_slot(), inputs: self.inputs },
                    ),
                    ..self
                }
            },
            BudgetEvent::Accept { slot } => if 0 <= slot < self.open.len() {
                let taken = self.open[slot];
                let committed = ReservationView { committed: true, ..taken.reservation };
                BudgetRun {
                    budget: self.budget.released(committed),
                    open: self.open.remove(slot),
                    accepted: if taken.inputs == self.inputs {
                        self.accepted + 1
                    } else {
                        self.accepted
                    },
                    ..self
                }
            } else {
                self
            },
            BudgetEvent::Abandon { slot } => if 0 <= slot < self.open.len() {
                BudgetRun {
                    budget: self.budget.released(self.open[slot].reservation),
                    open: self.open.remove(slot),
                    ..self
                }
            } else {
                self
            },
            BudgetEvent::UserInput => BudgetRun {
                budget: self.budget.after_reset(),
                accepted: 0,
                inputs: self.inputs + 1,
                ..self
            },
        }
    }

    /// Where a fresh budget is after a sequence of events.
    pub open spec fn after(events: Seq<BudgetEvent>) -> BudgetRun
        decreases events.len(),
    {
        if events.len() == 0 {
            BudgetRun::start()
        } else {
            BudgetRun::after(events.drop_last()).step(events.last())
        }
    }

    /// How many of the open reservations were taken since the last user input.
    pub open spec fn open_now(self) -> nat {
        taken_at(self.open, self.inputs)
    }

    /// Whether abandoning this slot would give back a slot of a later epoch:
    /// the epoch counter has come around since it was taken.
    pub open spec fn is_mistaken_for_current(self, slot: int) -> bool {
        &&& self.open[slot].inputs != self.inputs
        &&& self.open[slot].reservation.epoch == self.budget.epoch
        &&& self.budget.reservations > 0
    }

    /// What every event keeps: the taken slots are exactly the accepted
    /// messages and the open reservations since the last user input.
    spec fn balanced(self) -> bool {
        &&& self.budget.wf()
        &&& self.budget.reservations == self.accepted + self.open_now()
        &&& forall|i: int|
            0 <= i < self.open.len() ==> {
                &&& (#[trigger] self.open[i]).inputs <= self.inputs
                &&& self.open[i].inputs == self.inputs ==> self.open[i].reservation.epoch
                    == self.budget.epoch
                &&& !self.open[i].reservation.committed
            }
    }

    /// As long as the epoch counter has not come around, epochs are numbered
    /// like user inputs.
    spec fn numbered(self) -> bool {
        &&& self.budget.epoch == self.inputs
        &&& forall|i: int|
            0 <= i < self.open.len() ==> (#[trigger] self.open[i]).reservation.epoch
                == self.open[i].inputs
    }
}

/// Whether no reservation is abandoned after the epoch counter has come around
/// to its epoch again.
pub open spec fn epochs_told_apart(events: Seq<BudgetEvent>) -> bool
    decreases events.len(),
{
    events.len() == 0 || {
        let run = BudgetRun::after(events.drop_last());
        &&& epochs_told_apart(events.drop_last())
        &&& events.last() matches BudgetEvent::Abandon { slot } ==> 0 <= slot < run.open.len()
            ==> !run.is_mistaken_for_current(slot)
    }
}

/// How many slots were taken when there had been `inputs` user inputs.
pub open spec fn taken_at(slots: Seq<OpenSlot>, inputs: nat) -> nat
    decreases slots.len(),
{
    if slots.len() == 0 {
        0
    } else {
        taken_at(slots.drop_last(), inputs) + if slots.last().inputs == inputs {
            1nat
        } else {
            0nat
        }
    }
}

proof fn lemma_taken_at_push(slots: Seq<OpenSlot>, slot: OpenSlot, inputs: nat)
    ensures
        taken_at(slots.push(slot), inputs) == taken_at(slots, inputs) + if slot.inputs == inputs {
            1nat
        } else {
            0nat
        },
{
    assert(slots.push(slot).drop_last() =~= slots);
}

proof fn lemma_taken_at_remove(slots: Seq<OpenSlot>, at: int, inputs: nat)
    requires
        0 <= at < slots.len(),
    ensures
        taken_at(slots, inputs) == taken_at(slots.remove(at), inputs) + if slots[at].inputs
            == inputs {
            1nat
        } else {
            0nat
        },
    decreases slots.len(),
{
    if at == slots.len() - 1 {
        assert(slots.remove(at) =~= slots.drop_last());
    } else {
        lemma_taken_at_remove(slots.drop_last(), at, inputs);
        assert(slots.remove(at).drop_last() =~= slots.drop_last().remove(at));
    }
}

proof fn lemma_none_taken_later(slots: Seq<OpenSlot>, inputs: nat)
    requires
        forall|i: int| 0 <= i < slots.len() ==> (#[trigger] slots[i]).inputs < inputs,
    ensures
        taken_at(slots, inputs) == 0,
    decreases slots.len(),
{
    if slots.len() > 0 {
        assert(slots.last() == slots[slots.len() - 1]);
        lemma_none_taken_later(slots.drop_last(), inputs);
    }
}

proof fn lemma_step_keeps_balance(run: BudgetRun, event: BudgetEvent)
    requires
        run.balanced(),
        event matches BudgetEvent::Abandon { slot } ==> 0 <= slot < run.open.len()
            ==> !run.is_mistaken_for_current(slot),
    ensures
        run.step(event).balanced(),
{
    match event {
        BudgetEvent::Reserve => {
            lemma_taken_at_push(
                run.open,
                OpenSlot { reservation: run.budget.next_slot(), inputs: run.inputs },
                run.inputs,
            );
        },
        BudgetEvent::Accept { slot } => {
            if 0 <= slot < run.open.len() {
                lemma_taken_at_remove(run.open, slot, run.inputs);
            }
        },
        BudgetEvent::Abandon { slot } => {
            if 0 <= slot < run.open.len() {
                lemma_taken_at_remove(run.open, slot, run.inputs);
            }
        },
        BudgetEvent::UserInput => {
            lemma_none_taken_later(run.open, run.inputs + 1);
        },
    }
}

proof fn lemma_always_balanced(events: Seq<BudgetEvent>)
    requires
        epochs_told_apart(events),
    ensures
        BudgetRun::after(events).balanced(),
    decreases events.len(),
{
    if events.len() > 0 {
        lemma_always_balanced(events.drop_last());
        lemma_step_keeps_balance(BudgetRun::after(events.drop_last()), events.last());
    }
}

proof fn lemma_numbered(events: Seq<BudgetEvent>)
    requires
        BudgetRun::after(events).inputs <= u64::MAX,
    ensures
        BudgetRun::after(events).numbered(),
    decreases events.len(),
{
    if events.len() > 0 {
        lemma_numbered(events.drop_last());
    }
}

/// However reservations, acceptances, abandoned sends and user inputs follow
/// one another, at most [`OUTBOUND_MESSAGE_LIMIT`] of the messages that took
/// their slot since the last user input are accepted, and exactly those and
/// the reservations still open count against the budget.
pub proof fn accepted_messages_never_exceed_the_limit(events: Seq<BudgetEvent>)
    requires
        epochs_told_apart(events),
    ensures
        BudgetRun::after(events).accepted <= OUTBOUND_MESSAGE_LIMIT,
        BudgetRun::after(events).budget.reservations == BudgetRun::after(events).accepted
            + BudgetRun::after(events).open_now(),
        BudgetRun::after(events).budget.wf(),
{
    lemma_always_balanced(events);
}

/// A slot is refused only once the messages accepted and the reservations open
/// since the last user input use up the limit: abandoned sends do not count.
pub proof fn refused_only_when_the_limit_is_used_up(events: Seq<BudgetEvent>)
    requires
        epochs_told_apart(events),
    ensures
        BudgetRun::after(events).budget.is_spent() <==> BudgetRun::after(events).accepted
            + BudgetRun::after(events).open_now() == OUTBOUND_MESSAGE_LIMIT,
{
    lemma_always_balanced(events);
}

/// Epochs are told apart in every run with no more user inputs than the epoch
/// counter can count.
pub proof fn short_runs_tell_epochs_apart(events: Seq<BudgetEvent>)
    requires
        BudgetRun::after(events).inputs <= u64::MAX,
    ensures
        epochs_told_apart(events),
    decreases events.len(),
{
    if events.len() > 0 {
        short_runs_tell_epochs_apart(events.drop_last());
        lemma_numbered(events.drop_last());
    }
}

/// A reservation that is abandoned in the epoch it was taken in leaves the
/// budget as it was before.
pub proof fn abandoned_reservation_is_refunded(budget: BudgetState)
    requires
        !budget.is_spent(),
    ensures
        budget.with_slot_taken().released(budget.next_slot()) == budget,
{
}

/// A reset gives the whole budget back and starts another epoch.
pub proof fn reset_gives_the_whole_budget_back(before: BudgetState)
    ensures
        !before.after_reset().is_spent(),
        before.after_reset().reservations == 0,
        before.after_reset().epoch != before.epoch,
{
}

/// A reservation taken in one epoch changes nothing in another, whatever became
/// of the slots since.
pub proof fn stale_reservation_refunds_nothing(before: BudgetState, now: BudgetState)
    requires
        now.epoch != before.epoch,
    ensures
        now.released(before.next_slot()) == now,
{
}

/// A budget is spent exactly if four slots are taken. Until then one more can be
/// taken, in the same epoch.
pub proof fn four_slots_can_be_taken(budget: BudgetState)
    ensures
        budget.is_spent() <==> budget.reservations >= 4,
        budget.reservations < 4 ==> budget.with_slot_taken().reservations == budget.reservations
            + 1,
        budget.with_slot_taken().epoch == budget.epoch,
        budget.next_slot().epoch == budget.epoch,
        !budget.next_slot().committed,
{
}

/// What ends a reservation never adds one, and takes at most one away: exactly
/// one if it was not committed, belongs to the current epoch and one is taken.
pub proof fn release_gives_back_one_slot_or_none(budget: BudgetState, slot: ReservationView)
    ensures
        budget.released(slot).epoch == budget.epoch,
        budget.reservations - budget.released(slot).reservations == if !slot.committed
            && slot.epoch == budget.epoch && budget.reservations > 0 {
            1int
        } else {
            0
        },
{
}

} // verus!
