//! What both messaging tools of a session share.

use vstd::prelude::*;

use crate::budget::{SessionMessageBudget, SessionMessageReservation};
use crate::error::{told_to_model, ErrorView, FunctionCallError};
use crate::session::{inspect_session, SessionAvailability, SnapshotView, ThreadSnapshot};
use crate::thread_id::ThreadId;

verus! {

/// The session on whose behalf the tools work.
#[derive(Clone, Copy, Debug, PartialEq, Eq, Structural)]
pub struct SessionMessagingRuntime {
    pub sender_thread_id: ThreadId,
}

/// What came of looking up the sending session.
#[derive(Debug)]
pub enum SenderLookup {
    /// The process that holds the sessions is gone.
    ProcessGone,
    /// The process does not know the sending session any more.
    SenderGone,
    Found(ThreadSnapshot),
}

/// A [`SenderLookup`] by its texts.
pub enum SenderLookupView {
    ProcessGone,
    SenderGone,
    Found(SnapshotView),
}

impl View for SenderLookup {
    type V = SenderLookupView;

    open spec fn view(&self) -> SenderLookupView {
        match self {
            SenderLookup::ProcessGone => SenderLookupView::ProcessGone,
            SenderLookup::SenderGone => SenderLookupView::SenderGone,
            SenderLookup::Found(thread) => SenderLookupView::Found(thread@),
        }
    }
}

impl SenderLookupView {
    /// Whether the sending session may use the tools.
    pub open spec fn may_send(self) -> bool {
        self matches SenderLookupView::Found(thread) && thread.availability() is Eligible
    }

    /// Why the sending session may not use the tools, if it may not.
    pub open spec fn refusal(self) -> Option<ErrorView> {
        if self is ProcessGone {
            Some(ErrorView::Fatal("shared app-server process is no longer available"@))
        } else if !self.may_send() {
            Some(
                ErrorView::RespondToModel(
                    "current session is no longer eligible for cross-session messaging"@,
                ),
            )
        } else {
            None
        }
    }
}

/// The refusal once the outbound budget is spent.
pub open spec fn budget_spent_error() -> ErrorView {
    ErrorView::RespondToModel(
        "outbound session message limit reached; ask the user for new explicit input before sending another session message"@,
    )
}

impl SessionMessagingRuntime {
    /// The tools' runtime for a session.
    pub fn new(sender_thread_id: ThreadId) -> (runtime: SessionMessagingRuntime)
        ensures
            runtime.sender_thread_id == sender_thread_id,
    {
        SessionMessagingRuntime { sender_thread_id }
    }

    /// Confirms that the process is there and that the sending session is
    /// still eligible for cross-session messaging.
    pub fn manager(&self, lookup: &SenderLookup) -> (result: Result<(), FunctionCallError>)
        ensures
            result is Ok <==> lookup@.refusal() is None,
            result matches Err(error) ==> lookup@.refusal() == Some(error@),
            lookup is ProcessGone ==> (result matches Err(FunctionCallError::Fatal(text)) && text@
                == "shared app-server process is no longer available"@),
            !(lookup is ProcessGone) && result is Err ==> (result matches Err(
                FunctionCallError::RespondToModel(text),
            ) && text@ == "current session is no longer eligible for cross-session messaging"@),
    {
        let thread = match lookup {
            SenderLookup::ProcessGone => {
                return Err(
                    FunctionCallError::Fatal(
                        "shared app-server process is no longer available".to_owned(),
                    ),
                );
            },
            SenderLookup::SenderGone => {
                return Err(
                    told_to_model(
                        "current session is no longer eligible for cross-session messaging",
                    ),
                );
            },
            SenderLookup::Found(thread) => thread,
        };
        match inspect_session(thread) {
            SessionAvailability::Eligible(_) => Ok(()),
            _ => Err(
                told_to_model("current session is no longer eligible for cross-session messaging"),
            ),
        }
    }

    /// Takes a slot for one message out of the budget.
    pub fn reserve_outbound_message(&self, budget: &mut SessionMessageBudget) -> (result: Result<
        SessionMessageReservation,
        FunctionCallError,
    >)
        ensures
            result is Err <==> old(budget)@.is_spent(),
            result matches Err(error) ==> error@ == budget_spent_error() && final(budget)@ == old(
                budget,
            )@,
            result matches Ok(slot) ==> slot@ == old(budget)@.next_slot() && final(budget)@ == old(
                budget,
            )@.with_slot_taken(),
            result is Ok <==> old(budget)@.reservations < 4,
            result matches Err(error) ==> (error matches FunctionCallError::RespondToModel(text)
                && text@
                == "outbound session message limit reached; ask the user for new explicit input before sending another session message"@),
    {
        match budget.reserve() {
            Some(reservation) => Ok(reservation),
            None => Err(
                told_to_model(
                    "outbound session message limit reached; ask the user for new explicit input before sending another session message",
                ),
            ),
        }
    }
}

/// The sending session may use the tools exactly if the process and the session
/// are there, the session is a root session that is not ephemeral and has
/// enabled the feature, and it is neither shut down nor gone. Only a process
/// that is gone ends the turn.
pub proof fn tools_work_for_eligible_senders(lookup: SenderLookup)
    ensures
        lookup@.refusal() is None <==> (lookup matches SenderLookup::Found(thread)
            && thread.config matches Some(config) && thread.identity matches Some(identity)
            && config.enabled && !config.ephemeral && identity.is_root && !(thread.status is Shutdown)
            && !(thread.status is NotFound)),
        lookup@.refusal() matches Some(ErrorView::Fatal(text)) ==> lookup is ProcessGone && text
            == "shared app-server process is no longer available"@,
        lookup is ProcessGone ==> lookup@.refusal() matches Some(ErrorView::Fatal(_)),
        lookup@.refusal() matches Some(ErrorView::RespondToModel(text)) ==> text
            == "current session is no longer eligible for cross-session messaging"@,
{
}

} // verus!
