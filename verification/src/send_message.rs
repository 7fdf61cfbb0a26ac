//! Sending a message to another session.

use vstd::prelude::*;
use vstd::utf8::encode_utf8;

use crate::budget::{
    BudgetEvent, BudgetRun, BudgetState, ReservationView, SessionMessageBudget,
    SessionMessageReservation,
};
use crate::error::{told_to_model, ErrorView, FunctionCallError};
use crate::list_sessions::{reachable, SummaryView};
use crate::message::{
    accepted_messages_say_something_and_are_short, message_refusal, validate_message,
    CommunicationView, InterAgentCommunication,
};
use crate::runtime::{
    budget_spent_error, SenderLookup, SenderLookupView, SessionMessagingRuntime,
};
use crate::session::{
    inspect_session, AvailabilityView, SessionAvailability, SnapshotView, ThreadSnapshot,
};
use crate::store::{StoreView, ThreadStore};
use crate::text::joined;
use crate::thread_id::{identifier_reads_back, ThreadId};
use crate::tool_spec::{
    describes, message_parameter_text, send_session_message_tool_spec, send_tool_text, ToolSpec,
    SEND_SESSION_MESSAGE_TOOL_NAME,
};

verus! {

/// The arguments of a send.
#[derive(Debug, PartialEq, Eq)]
pub struct SendSessionMessageArgs {
    pub thread_id: String,
    pub message: String,
}

/// A [`SendSessionMessageArgs`] by its texts.
pub struct SendArgsView {
    pub thread_id: Seq<char>,
    pub message: Seq<char>,
}

impl View for SendSessionMessageArgs {
    type V = SendArgsView;

    open spec fn view(&self) -> SendArgsView {
        SendArgsView { thread_id: self.thread_id@, message: self.message@ }
    }
}

/// What the sender is told once a message has been accepted.
#[derive(Debug, PartialEq, Eq)]
pub struct SendSessionMessageReceipt {
    pub state: &'static str,
    pub sender_thread_id: String,
    pub recipient_thread_id: String,
    pub receiver_submission_id: String,
    pub processed_by_model: bool,
    pub detail: &'static str,
}

/// A [`SendSessionMessageReceipt`] by its texts.
pub struct ReceiptView {
    pub state: Seq<char>,
    pub sender_thread_id: Seq<char>,
    pub recipient_thread_id: Seq<char>,
    pub receiver_submission_id: Seq<char>,
    pub processed_by_model: bool,
    pub detail: Seq<char>,
}

impl View for SendSessionMessageReceipt {
    type V = ReceiptView;

    open spec fn view(&self) -> ReceiptView {
        ReceiptView {
            state: self.state@,
            sender_thread_id: self.sender_thread_id@,
            recipient_thread_id: self.recipient_thread_id@,
            receiver_submission_id: self.receiver_submission_id@,
            processed_by_model: self.processed_by_model,
            detail: self.detail@,
        }
    }
}

/// The receipt of a message that was accepted under a submission identifier.
pub open spec fn receipt_of(communication: CommunicationView, submission: Seq<char>) -> ReceiptView {
    ReceiptView {
        state: "enqueued_for_target_session_dispatch"@,
        sender_thread_id: communication.sender.text(),
        recipient_thread_id: communication.recipient.text(),
        receiver_submission_id: submission,
        processed_by_model: false,
        detail: "The message was accepted and enqueued for target session dispatch; it has not necessarily been consumed by the target session or processed by its model."@,
    }
}

/// What is told about arguments that could not be read.
pub open spec fn bad_send_args_error(reason: Seq<char>) -> ErrorView {
    ErrorView::RespondToModel("invalid send_session_message arguments: "@ + reason)
}

/// Takes over the arguments of a send, or the reason why they could not be
/// read.
pub fn parse_send_args(read: Result<SendSessionMessageArgs, String>) -> (args: Result<
    SendSessionMessageArgs,
    FunctionCallError,
>)
    ensures
        args is Ok <==> read is Ok,
        args matches Ok(args) ==> read == Ok::<SendSessionMessageArgs, String>(args),
        args matches Err(error) ==> error@ == bad_send_args_error(read->Err_0@),
        read matches Err(reason) ==> (args matches Err(FunctionCallError::RespondToModel(text))
            && text@ == "invalid send_session_message arguments: "@ + reason@),
{
    match read {
        Ok(args) => Ok(args),
        Err(reason) => Err(
            FunctionCallError::RespondToModel(
                joined("invalid send_session_message arguments: ", reason.as_str()),
            ),
        ),
    }
}

/// The tool that sends a message to another session.
#[derive(Clone, Copy, Debug, PartialEq, Eq, Structural)]
pub struct SendSessionMessageTool {
    pub runtime: SessionMessagingRuntime,
}

/// A send that waits for the sending session to be looked up.
#[derive(Debug)]
pub struct SendSenderPending {
    pub runtime: SessionMessagingRuntime,
    pub communication: InterAgentCommunication,
}

/// A send that waits for the receiving session to be looked up.
#[derive(Debug)]
pub struct SendRecipientPending {
    pub runtime: SessionMessagingRuntime,
    pub communication: InterAgentCommunication,
}

/// A send that waits for the receiving session to take the message. It holds
/// a slot of the outbound budget, which stays taken if this is just dropped:
/// end it with [`SendSubmissionPending::resume`] or
/// [`SendSubmissionPending::abandon`], on the budget it was taken from.
#[must_use]
#[derive(Debug)]
pub struct SendSubmissionPending {
    pub communication: InterAgentCommunication,
    pub reservation: SessionMessageReservation,
}

/// What a send needs next, or what came of it.
#[must_use]
#[derive(Debug)]
pub enum SendStep {
    /// Look up the sending session.
    LookUpSender(SendSenderPending),
    /// Look up the receiving session.
    LookUpRecipient(SendRecipientPending),
    /// Hand the message to the receiving session.
    Submit(SendSubmissionPending),
    Return(Result<SendSessionMessageReceipt, FunctionCallError>),
}

/// A [`SendStep`] by its texts.
pub enum SendStepView {
    LookUpSender(CommunicationView),
    LookUpRecipient(CommunicationView),
    Submit(CommunicationView, ReservationView),
    Return(Result<ReceiptView, ErrorView>),
}

impl View for SendStep {
    type V = SendStepView;

    open spec fn view(&self) -> SendStepView {
        match self {
            SendStep::LookUpSender(pending) => SendStepView::LookUpSender(pending.communication@),
            SendStep::LookUpRecipient(pending) => SendStepView::LookUpRecipient(
                pending.communication@,
            ),
            SendStep::Submit(pending) => SendStepView::Submit(
                pending.communication@,
                pending.reservation@,
            ),
            SendStep::Return(Ok(receipt)) => SendStepView::Return(Ok(receipt@)),
            SendStep::Return(Err(error)) => SendStepView::Return(Err(error@)),
        }
    }
}

/// A send that ends with an error which the model is told.
pub open spec fn refused(text: Seq<char>) -> SendStepView {
    SendStepView::Return(Err(ErrorView::RespondToModel(text)))
}

/// How a send goes on when the text for the receiving session stands for
/// `recipient`, or for no session.
pub open spec fn addressed(
    sender: ThreadId,
    recipient: Option<ThreadId>,
    message: Seq<char>,
) -> SendStepView {
    match recipient {
        None => refused("thread_id must be a valid session UUID"@),
        Some(recipient) => if recipient == sender {
            refused("cannot send a session message to the current session"@)
        } else {
            SendStepView::LookUpSender(CommunicationView { sender, recipient, message })
        },
    }
}

/// How a send starts: its message is checked before it is addressed.
pub open spec fn started(sender: ThreadId, args: SendArgsView) -> SendStepView {
    match message_refusal(args.message) {
        Some(refusal) => SendStepView::Return(Err(refusal)),
        None => addressed(sender, ThreadId::parsed(args.thread_id), args.message),
    }
}

/// How a send goes on once the sending session has been looked up.
pub open spec fn after_sender(
    communication: CommunicationView,
    lookup: SenderLookupView,
) -> SendStepView {
    match lookup.refusal() {
        Some(refusal) => SendStepView::Return(Err(refusal)),
        None => SendStepView::LookUpRecipient(communication),
    }
}

/// Why a receiving session that was found, or not, cannot get the message.
pub open spec fn recipient_refusal(thread: Option<SnapshotView>) -> Option<ErrorView> {
    let not_live = ErrorView::RespondToModel(
        "target session is not live in this shared app-server process"@,
    );
    match thread {
        None => Some(not_live),
        Some(thread) => match thread.availability() {
            AvailabilityView::Eligible(_) => None,
            AvailabilityView::FeatureDisabled => Some(
                ErrorView::RespondToModel(
                    "target session has not enabled cross-session messaging"@,
                ),
            ),
            AvailabilityView::OutsideScope => Some(
                ErrorView::RespondToModel(
                    "target must be a non-ephemeral independent root session"@,
                ),
            ),
            AvailabilityView::NotLive => Some(not_live),
        },
    }
}

/// How a send goes on once the receiving session has been looked up, and what
/// it takes out of the budget.
pub open spec fn after_recipient(
    communication: CommunicationView,
    thread: Option<SnapshotView>,
    budget: BudgetState,
) -> (SendStepView, BudgetState) {
    match recipient_refusal(thread) {
        Some(refusal) => (SendStepView::Return(Err(refusal)), budget),
        None => if budget.is_spent() {
            (SendStepView::Return(Err(budget_spent_error())), budget)
        } else {
            (SendStepView::Submit(communication, budget.next_slot()), budget.with_slot_taken())
        },
    }
}

/// What comes of a send once the receiving session has taken the message or
/// not, and what becomes of its slot.
pub open spec fn after_submission(
    communication: CommunicationView,
    slot: ReservationView,
    outcome: Result<Seq<char>, Seq<char>>,
    budget: BudgetState,
) -> (Result<ReceiptView, ErrorView>, BudgetState) {
    match outcome {
        Ok(submission) => (
            Ok(receipt_of(communication, submission)),
            budget.released(ReservationView { committed: true, ..slot }),
        ),
        Err(reason) => (
            Err(
                ErrorView::RespondToModel(
                    "failed to enqueue session message for target session dispatch: "@ + reason,
                ),
            ),
            budget.released(slot),
        ),
    }
}

/// [`after_recipient`] on the budget that is kept with the sending session.
pub open spec fn after_recipient_in(
    communication: CommunicationView,
    thread: Option<SnapshotView>,
    store: StoreView,
) -> (SendStepView, StoreView) {
    let (step, left) = after_recipient(communication, thread, store.budget->0);
    (step, store.with_budget(left))
}

/// [`after_submission`] on the budget that is kept with the sending session.
pub open spec fn after_submission_in(
    communication: CommunicationView,
    slot: ReservationView,
    outcome: Result<Seq<char>, Seq<char>>,
    store: StoreView,
) -> (Result<ReceiptView, ErrorView>, StoreView) {
    let (end, left) = after_submission(communication, slot, outcome, store.budget->0);
    (end, store.with_budget(left))
}

/// What is kept with the sending session once a send with this slot was given
/// up.
pub open spec fn abandoned_in(slot: ReservationView, store: StoreView) -> StoreView {
    store.with_budget((store.budget->0).released(slot))
}

/// The texts of what came of handing over a message.
pub open spec fn outcome_texts(outcome: Result<String, String>) -> Result<Seq<char>, Seq<char>> {
    match outcome {
        Ok(submission) => Ok(submission@),
        Err(reason) => Err(reason@),
    }
}

/// The view of a session, if it was found.
pub open spec fn snapshot_of(thread: Option<ThreadSnapshot>) -> Option<SnapshotView> {
    match thread {
        Some(thread) => Some(thread@),
        None => None,
    }
}

impl SendSessionMessageTool {
    /// The tool for a session.
    pub fn new(runtime: SessionMessagingRuntime) -> (tool: SendSessionMessageTool)
        ensures
            tool.runtime == runtime,
    {
        SendSessionMessageTool { runtime }
    }

    /// The name of the tool.
    pub fn tool_name(&self) -> (name: &'static str)
        ensures
            name@ == "send_session_message"@,
    {
        SEND_SESSION_MESSAGE_TOOL_NAME
    }

    /// The description of the tool.
    pub fn tool_spec(&self) -> (description: ToolSpec)
        ensures
            describes(
                description,
                SEND_SESSION_MESSAGE_TOOL_NAME@,
                send_tool_text(),
                seq![
                    ("message"@, message_parameter_text()),
                    ("thread_id"@, "Stable UUID of a target returned by list_sessions."@),
                ],
                seq!["thread_id"@, "message"@],
            ),
    {
        send_session_message_tool_spec()
    }

    /// Starts a send.
    pub fn handle_call(&self, read: Result<SendSessionMessageArgs, String>) -> (step: SendStep)
        ensures
            step@ == match read {
                Ok(args) => started(self.runtime.sender_thread_id, args@),
                Err(reason) => SendStepView::Return(Err(bad_send_args_error(reason@))),
            },
            step matches SendStep::LookUpSender(pending) ==> pending.runtime == self.runtime,
            read matches Err(reason) ==> (step matches SendStep::Return(
                Err(FunctionCallError::RespondToModel(text)),
            ) && text@ == "invalid send_session_message arguments: "@ + reason@),
    {
        let args = match parse_send_args(read) {
            Ok(args) => args,
            Err(error) => return SendStep::Return(Err(error)),
        };
        if let Err(error) = validate_message(args.message.as_str()) {
            return SendStep::Return(Err(error));
        }
        let recipient = match ThreadId::from_string(args.thread_id.as_str()) {
            Ok(recipient) => Some(recipient),
            Err(_) => None,
        };
        self.address(recipient, args.message)
    }

    /// Addresses a message to the session that the text for it stands for, or
    /// to none.
    pub fn address(&self, recipient: Option<ThreadId>, message: String) -> (step: SendStep)
        ensures
            step@ == addressed(self.runtime.sender_thread_id, recipient, message@),
            step matches SendStep::LookUpSender(pending) ==> pending.runtime == self.runtime,
    {
        let recipient = match recipient {
            Some(recipient) => recipient,
            None => {
                return SendStep::Return(
                    Err(told_to_model("thread_id must be a valid session UUID")),
                );
            },
        };
        if recipient == self.runtime.sender_thread_id {
            return SendStep::Return(
                Err(told_to_model("cannot send a session message to the current session")),
            );
        }
        SendStep::LookUpSender(
            SendSenderPending {
                runtime: self.runtime,
                communication: InterAgentCommunication::new_session_message(
                    self.runtime.sender_thread_id,
                    recipient,
                    message,
                ),
            },
        )
    }
}

impl SendSenderPending {
    /// Goes on once the sending session has been looked up.
    pub fn resume(self, lookup: &SenderLookup) -> (step: SendStep)
        ensures
            step@ == after_sender(self.communication@, lookup@),
            step matches SendStep::LookUpRecipient(pending) ==> pending.runtime == self.runtime,
    {
        match self.runtime.manager(lookup) {
            Ok(()) => SendStep::LookUpRecipient(
                SendRecipientPending { runtime: self.runtime, communication: self.communication },
            ),
            Err(error) => SendStep::Return(Err(error)),
        }
    }
}

impl SendRecipientPending {
    /// Goes on once the receiving session has been looked up: if it can be
    /// reached, a slot of the budget is taken.
    pub fn resume(
        self,
        thread: &Option<ThreadSnapshot>,
        budget: &mut SessionMessageBudget,
    ) -> (step: SendStep)
        ensures
            (step@, final(budget)@) == after_recipient(
                self.communication@,
                snapshot_of(*thread),
                old(budget)@,
            ),
    {
        let thread = match thread {
            Some(thread) => thread,
            None => {
                return SendStep::Return(
                    Err(
                        told_to_model(
                            "target session is not live in this shared app-server process",
                        ),
                    ),
                );
            },
        };
        match inspect_session(thread) {
            SessionAvailability::Eligible(_) => {},
            SessionAvailability::FeatureDisabled => {
                return SendStep::Return(
                    Err(told_to_model("target session has not enabled cross-session messaging")),
                );
            },
            SessionAvailability::OutsideScope => {
                return SendStep::Return(
                    Err(told_to_model("target must be a non-ephemeral independent root session")),
                );
            },
            SessionAvailability::NotLive => {
                return SendStep::Return(
                    Err(
                        told_to_model(
                            "target session is not live in this shared app-server process",
                        ),
                    ),
                );
            },
        }
        match self.runtime.reserve_outbound_message(budget) {
            Ok(reservation) => SendStep::Submit(
                SendSubmissionPending { communication: self.communication, reservation },
            ),
            Err(error) => SendStep::Return(Err(error)),
        }
    }

    /// Goes on like [`SendRecipientPending::resume`], on the budget that is
    /// kept with the sending session.
    pub fn resume_in(self, thread: &Option<ThreadSnapshot>, store: &mut ThreadStore) -> (step:
        SendStep)
        requires
            old(store)@.budget is Some,
        ensures
            (step@, final(store)@) == after_recipient_in(
                self.communication@,
                snapshot_of(*thread),
                old(store)@,
            ),
    {
        let mut budget = store.budget.take().unwrap();
        let step = self.resume(thread, &mut budget);
        store.budget = Some(budget);
        step
    }
}

impl SendSubmissionPending {
    /// Ends the send once the receiving session has taken the message, under a
    /// submission identifier, or refused it, for a reason. A refused message
    /// gives its slot back.
    pub fn resume(
        self,
        outcome: Result<String, String>,
        budget: &mut SessionMessageBudget,
    ) -> (result: Result<SendSessionMessageReceipt, FunctionCallError>)
        ensures
            (SendStep::Return(result)@, final(budget)@) == ({
                let (end, left) = after_submission(
                    self.communication@,
                    self.reservation@,
                    outcome_texts(outcome),
                    old(budget)@,
                );
                (SendStepView::Return(end), left)
            }),
    {
        match outcome {
            Ok(receiver_submission_id) => {
                budget.release(self.reservation.commit());
                Ok(
                    SendSessionMessageReceipt {
                        state: "enqueued_for_target_session_dispatch",
                        sender_thread_id: self.communication.sender.to_string(),
                        recipient_thread_id: self.communication.recipient.to_string(),
                        receiver_submission_id,
                        processed_by_model: false,
                        detail:
                            "The message was accepted and enqueued for target session dispatch; it has not necessarily been consumed by the target session or processed by its model.",
                    },
                )
            },
            Err(reason) => {
                budget.release(self.reservation);
                Err(
                    FunctionCallError::RespondToModel(
                        joined(
                            "failed to enqueue session message for target session dispatch: ",
                            reason.as_str(),
                        ),
                    ),
                )
            },
        }
    }

    /// Gives up a send whose outcome nobody waits for any more: the slot comes
    /// back.
    pub fn abandon(self, budget: &mut SessionMessageBudget)
        ensures
            final(budget)@ == old(budget)@.released(self.reservation@),
    {
        budget.release(self.reservation);
    }

    /// Ends the send like [`SendSubmissionPending::resume`], on the budget that
    /// is kept with the sending session.
    pub fn resume_in(self, outcome: Result<String, String>, store: &mut ThreadStore) -> (result:
        Result<SendSessionMessageReceipt, FunctionCallError>)
        requires
            old(store)@.budget is Some,
        ensures
            (SendStep::Return(result)@, final(store)@) == ({
                let (end, left) = after_submission_in(
                    self.communication@,
                    self.reservation@,
                    outcome_texts(outcome),
                    old(store)@,
                );
                (SendStepView::Return(end), left)
            }),
    {
        let mut budget = store.budget.take().unwrap();
        let result = self.resume(outcome, &mut budget);
        store.budget = Some(budget);
        result
    }

    /// Gives up the send like [`SendSubmissionPending::abandon`], on the budget
    /// that is kept with the sending session.
    pub fn abandon_in(self, store: &mut ThreadStore)
        requires
            old(store)@.budget is Some,
        ensures
            final(store)@ == abandoned_in(self.reservation@, old(store)@),
    {
        let mut budget = store.budget.take().unwrap();
        self.abandon(&mut budget);
        store.budget = Some(budget);
    }
}

/// What comes of a whole send.
pub struct SendRun {
    /// The message that was handed to the receiving session, if one was.
    pub submitted: Option<CommunicationView>,
    pub result: Result<ReceiptView, ErrorView>,
    pub budget: BudgetState,
}

/// A whole send, when nothing else happens to the budget meanwhile: the step
/// functions one after another, each with what the outside answers.
pub open spec fn send_run(
    sender: ThreadId,
    read: Result<SendArgsView, Seq<char>>,
    lookup: SenderLookupView,
    thread: Option<SnapshotView>,
    outcome: Result<Seq<char>, Seq<char>>,
    budget: BudgetState,
) -> SendRun {
    let first = match read {
        Ok(args) => started(sender, args),
        Err(reason) => SendStepView::Return(Err(bad_send_args_error(reason))),
    };
    let second = match first {
        SendStepView::LookUpSender(communication) => after_sender(communication, lookup),
        _ => first,
    };
    let (third, taken) = match second {
        SendStepView::LookUpRecipient(communication) => after_recipient(
            communication,
            thread,
            budget,
        ),
        _ => (second, budget),
    };
    match third {
        SendStepView::Submit(communication, slot) => {
            let (result, left) = after_submission(communication, slot, outcome, taken);
            SendRun { submitted: Some(communication), result, budget: left }
        },
        SendStepView::Return(result) => SendRun { submitted: None, result, budget: taken },
        _ => arbitrary(),
    }
}

/// Whether a send is allowed: its arguments could be read, its message is
/// acceptable, it goes to another session, both sessions take part in
/// messaging, and the budget is not spent.
pub open spec fn send_allowed(
    sender: ThreadId,
    read: Result<SendArgsView, Seq<char>>,
    lookup: SenderLookupView,
    thread: Option<SnapshotView>,
    budget: BudgetState,
) -> bool {
    &&& read matches Ok(args)
    &&& message_refusal(args.message) is None
    &&& ThreadId::parsed(args.thread_id) matches Some(recipient)
    &&& recipient != sender
    &&& lookup.may_send()
    &&& thread matches Some(thread)
    &&& thread.availability() is Eligible
    &&& !budget.is_spent()
}

/// A message is handed over exactly if the send is allowed, and then it is the
/// message that was given, from the sending session to the session that was
/// named.
pub proof fn allowed_messages_are_handed_over_unchanged(
    sender: ThreadId,
    read: Result<SendArgsView, Seq<char>>,
    lookup: SenderLookupView,
    thread: Option<SnapshotView>,
    outcome: Result<Seq<char>, Seq<char>>,
    budget: BudgetState,
)
    ensures
        send_run(sender, read, lookup, thread, outcome, budget).submitted == if send_allowed(
            sender,
            read,
            lookup,
            thread,
            budget,
        ) {
            Some(
                CommunicationView {
                    sender,
                    recipient: ThreadId::parsed((read->Ok_0).thread_id)->0,
                    message: (read->Ok_0).message,
                },
            )
        } else {
            None
        },
{
}

/// A send that is not allowed hands nothing over, ends in an error and leaves
/// the budget alone; so does one that the receiving session refuses, but for
/// what it handed over.
pub proof fn refused_sends_do_not_count(
    sender: ThreadId,
    read: Result<SendArgsView, Seq<char>>,
    lookup: SenderLookupView,
    thread: Option<SnapshotView>,
    outcome: Result<Seq<char>, Seq<char>>,
    budget: BudgetState,
)
    requires
        !send_allowed(sender, read, lookup, thread, budget) || outcome is Err,
    ensures
        send_run(sender, read, lookup, thread, outcome, budget).result is Err,
        send_run(sender, read, lookup, thread, outcome, budget).budget == budget,
{
}

/// A send that is allowed and that the receiving session takes uses one slot
/// and ends in a receipt that names both sessions and the submission, and that
/// does not claim the message was read.
pub proof fn accepted_sends_take_one_slot(
    sender: ThreadId,
    read: Result<SendArgsView, Seq<char>>,
    lookup: SenderLookupView,
    thread: Option<SnapshotView>,
    submission: Seq<char>,
    budget: BudgetState,
)
    requires
        send_allowed(sender, read, lookup, thread, budget),
    ensures
        send_run(sender, read, lookup, thread, Ok(submission), budget).budget
            == budget.with_slot_taken(),
        send_run(sender, read, lookup, thread, Ok(submission), budget).result matches Ok(receipt)
            && receipt.sender_thread_id == sender.text() && receipt.recipient_thread_id
            == (ThreadId::parsed((read->Ok_0).thread_id)->0).text()
            && receipt.receiver_submission_id == submission && !receipt.processed_by_model,
{
}

/// Sends do to the budget what its events do: one that gets as far as the
/// budget reserves a slot, and what comes of it accepts or abandons that slot.
/// So the bound on accepted messages holds however sends are mixed with each
/// other and with user inputs.
pub proof fn sends_are_budget_events(
    run: BudgetRun,
    slot: int,
    communication: CommunicationView,
    thread: Option<SnapshotView>,
    outcome: Result<Seq<char>, Seq<char>>,
)
    requires
        0 <= slot < run.open.len(),
    ensures
        after_recipient(communication, thread, run.budget).1 == if recipient_refusal(thread) is None {
            run.step(BudgetEvent::Reserve).budget
        } else {
            run.budget
        },
        after_submission(communication, run.open[slot].reservation, outcome, run.budget).1
            == run.step(
            if outcome is Ok {
                BudgetEvent::Accept { slot }
            } else {
                BudgetEvent::Abandon { slot }
            },
        ).budget,
{
}

/// A session takes messages exactly if a listing would show it: one that is
/// not found, has not enabled the feature, is outside the scope or is not live
/// is neither listed nor sent anything.
pub proof fn sessions_take_messages_exactly_if_listed(thread: Option<SnapshotView>)
    ensures
        recipient_refusal(thread) is None <==> reachable(seq![thread]).len() == 1,
        recipient_refusal(thread) is Some <==> reachable(seq![thread]).len() == 0,
{
    assert(seq![thread].drop_last() =~= Seq::empty());
    assert(reachable(seq![thread].drop_last()) == Seq::<SummaryView>::empty());
}

/// Whoever is listed can be addressed: the identifier of a line leads to the
/// session that the line describes.
pub proof fn listed_sessions_can_be_addressed(
    sender: ThreadId,
    line: SummaryView,
    peer: ThreadId,
    message: Seq<char>,
)
    requires
        line.thread_id == peer.text(),
        peer != sender,
        message_refusal(message) is None,
    ensures
        started(sender, SendArgsView { thread_id: line.thread_id, message })
            == SendStepView::LookUpSender(CommunicationView { sender, recipient: peer, message }),
{
    identifier_reads_back(peer);
}

/// A send starts exactly if its message says something and takes at most 32,000
/// bytes, and the text for the receiving session reads as the identifier of a
/// session other than the sending one. It then carries that identifier, that of
/// the sending session and the message as it is. Any other send ends with a
/// text for the model; if only the identifier is wrong, it says what is wrong
/// with it.
pub proof fn sends_start_with_a_message_and_another_session(
    sender: ThreadId,
    args: SendSessionMessageArgs,
    step: SendStep,
)
    requires
        step@ == started(sender, args@),
    ensures
        ({
            let message = args.message@;
            let says_something = exists|i: int|
                0 <= i < message.len() && {
                    let c = (#[trigger] message[i]) as int;
                    !(9 <= c <= 13 || c == 0x20 || c == 0x85 || c == 0xa0 || c == 0x1680 || 0x2000
                        <= c <= 0x200a || c == 0x2028 || c == 0x2029 || c == 0x202f || c == 0x205f
                        || c == 0x3000)
                };
            let acceptable = says_something && encode_utf8(message).len() <= 32_000;
            let target = ThreadId::parsed(args.thread_id@);
            &&& step is LookUpSender <==> acceptable && target is Some && target != Some(sender)
            &&& step matches SendStep::LookUpSender(pending) ==> {
                &&& pending.communication.sender == sender
                &&& target == Some(pending.communication.recipient)
                &&& pending.communication.message@ == message
            }
            &&& !(step is LookUpSender) ==> (step matches SendStep::Return(
                Err(FunctionCallError::RespondToModel(text)),
            ) && (acceptable ==> text@ == if target is None {
                "thread_id must be a valid session UUID"@
            } else {
                "cannot send a session message to the current session"@
            }))
        }),
{
    let refusal = message_refusal(args.message@);
    let result = match step {
        SendStep::Return(Err(error)) if refusal is Some => Err(error),
        _ => Ok(()),
    };
    accepted_messages_say_something_and_are_short(args.message@, result);
}

/// A send goes on from the sending session exactly if that is a root session
/// which is not ephemeral, has enabled the feature and is neither shut down nor
/// gone. The message stays as it is.
pub proof fn sends_go_on_from_eligible_senders(
    communication: InterAgentCommunication,
    lookup: SenderLookup,
    step: SendStep,
)
    requires
        step@ == after_sender(communication@, lookup@),
    ensures
        step is LookUpRecipient <==> (lookup matches SenderLookup::Found(thread)
            && thread.config matches Some(config) && thread.identity matches Some(identity)
            && config.enabled && !config.ephemeral && identity.is_root && !(thread.status is Shutdown)
            && !(thread.status is NotFound)),
        step matches SendStep::LookUpRecipient(pending) ==> {
            &&& pending.communication.sender == communication.sender
            &&& pending.communication.recipient == communication.recipient
            &&& pending.communication.message@ == communication.message@
        },
        lookup is ProcessGone ==> (step matches SendStep::Return(
            Err(FunctionCallError::Fatal(text)),
        ) && text@ == "shared app-server process is no longer available"@),
        !(lookup is ProcessGone) && !(step is LookUpRecipient) ==> (step matches SendStep::Return(
            Err(FunctionCallError::RespondToModel(text)),
        ) && text@ == "current session is no longer eligible for cross-session messaging"@),
{
}

/// A message is handed over exactly if the receiving session was found, is a
/// root session, is not ephemeral, has enabled the feature and is neither shut
/// down nor gone, and fewer than four slots are taken. It is the same message,
/// and one more slot is taken. Otherwise no slot is taken, and the model is told
/// the first of the reasons that holds.
pub proof fn messages_are_handed_to_sessions_that_take_them(
    communication: InterAgentCommunication,
    thread: Option<ThreadSnapshot>,
    before: BudgetState,
    step: SendStep,
    after: BudgetState,
)
    requires
        (step@, after) == after_recipient(communication@, snapshot_of(thread), before),
    ensures
        ({
            let known = thread matches Some(thread) && thread.config is Some && thread.identity
                is Some;
            let in_scope = ((thread->0).identity->0).is_root && !((thread->0).config->0).ephemeral;
            let enabled = ((thread->0).config->0).enabled;
            let live = !((thread->0).status is Shutdown) && !((thread->0).status is NotFound);
            &&& step is Submit <==> known && in_scope && enabled && live && before.reservations < 4
            &&& step matches SendStep::Submit(pending) ==> {
                &&& pending.communication.sender == communication.sender
                &&& pending.communication.recipient == communication.recipient
                &&& pending.communication.message@ == communication.message@
                &&& pending.reservation@.epoch == before.epoch
                &&& !pending.reservation@.committed
                &&& after.epoch == before.epoch
                &&& after.reservations == before.reservations + 1
            }
            &&& !(step is Submit) ==> after == before && (step matches SendStep::Return(
                Err(FunctionCallError::RespondToModel(text)),
            ) && text@ == if !known {
                "target session is not live in this shared app-server process"@
            } else if !in_scope {
                "target must be a non-ephemeral independent root session"@
            } else if !enabled {
                "target session has not enabled cross-session messaging"@
            } else if !live {
                "target session is not live in this shared app-server process"@
            } else {
                "outbound session message limit reached; ask the user for new explicit input before sending another session message"@
            })
        }),
{
}

/// A message that was taken keeps its slot, and the receipt names both sessions
/// so that they can be read back and the submission, and does not claim that
/// the message was read. A message that was refused gives its slot back to the
/// epoch it was taken in, and the model is told why.
pub proof fn receipts_are_given_for_taken_messages(
    communication: InterAgentCommunication,
    slot: ReservationView,
    outcome: Result<String, String>,
    before: BudgetState,
    result: Result<SendSessionMessageReceipt, FunctionCallError>,
    after: BudgetState,
)
    requires
        !slot.committed,
        (SendStep::Return(result)@, after) == ({
            let (end, left) = after_submission(
                communication@,
                slot,
                outcome_texts(outcome),
                before,
            );
            (SendStepView::Return(end), left)
        }),
    ensures
        result is Ok <==> outcome is Ok,
        outcome matches Ok(submission) ==> after == before && (result matches Ok(receipt) && {
            &&& receipt.state@ == "enqueued_for_target_session_dispatch"@
            &&& receipt.sender_thread_id@ == communication.sender.text()
            &&& ThreadId::parsed(receipt.sender_thread_id@) == Some(communication.sender)
            &&& receipt.recipient_thread_id@ == communication.recipient.text()
            &&& ThreadId::parsed(receipt.recipient_thread_id@) == Some(communication.recipient)
            &&& receipt.receiver_submission_id@ == submission@
            &&& !receipt.processed_by_model
            &&& receipt.detail@
                == "The message was accepted and enqueued for target session dispatch; it has not necessarily been consumed by the target session or processed by its model."@
        }),
        outcome matches Err(reason) ==> (result matches Err(
            FunctionCallError::RespondToModel(text),
        ) && text@ == "failed to enqueue session message for target session dispatch: "@ + reason@),
        outcome is Err ==> after.epoch == before.epoch && before.reservations - after.reservations
            == if slot.epoch == before.epoch && before.reservations > 0 {
            1int
        } else {
            0
        },
{
    identifier_reads_back(communication.sender);
    identifier_reads_back(communication.recipient);
    assert(SendStep::Return(result)@ matches SendStepView::Return(_));
}

/// A send through the store of a session does to the budget kept there what it
/// would do to that budget alone, and touches nothing else that is kept.
pub proof fn sends_touch_only_the_budget_of_the_store(
    communication: InterAgentCommunication,
    thread: Option<ThreadSnapshot>,
    slot: ReservationView,
    outcome: Result<String, String>,
    before: ThreadStore,
    after: ThreadStore,
)
    requires
        before.budget is Some,
        after@ == after_recipient_in(communication@, snapshot_of(thread), before@).1 || after@
            == after_submission_in(communication@, slot, outcome_texts(outcome), before@).1
            || after@ == abandoned_in(slot, before@),
    ensures
        after.level_id@ == before.level_id@,
        after.identity == before.identity,
        after.config is Some <==> before.config is Some,
        after.config is Some ==> {
            &&& (after.config->0).enabled == (before.config->0).enabled
            &&& (after.config->0).ephemeral == (before.config->0).ephemeral
            &&& (after.config->0).cwd@ == (before.config->0).cwd@
        },
        after.budget is Some,
        (after.budget->0)@.epoch == (before.budget->0)@.epoch,
        after@ == after_recipient_in(communication@, snapshot_of(thread), before@).1
            ==> (after.budget->0)@ == after_recipient(
            communication@,
            snapshot_of(thread),
            (before.budget->0)@,
        ).1,
        after@ == after_submission_in(communication@, slot, outcome_texts(outcome), before@).1
            ==> (after.budget->0)@ == after_submission(
            communication@,
            slot,
            outcome_texts(outcome),
            (before.budget->0)@,
        ).1,
        after@ == abandoned_in(slot, before@) ==> (after.budget->0)@ == (
        before.budget->0)@.released(slot),
{
}

} // verus!
