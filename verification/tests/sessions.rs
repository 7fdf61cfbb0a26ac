use session_messaging::budget::{SessionMessageBudget, OUTBOUND_MESSAGE_LIMIT};
use session_messaging::error::FunctionCallError;
use session_messaging::list_sessions::{
    list_reachable, ListSessionsArgs, ListSessionsResponse, ListSessionsTool, ListStep,
    SessionSummary,
};
use session_messaging::runtime::{SenderLookup, SessionMessagingRuntime};
use session_messaging::send_message::{
    SendSessionMessageArgs, SendSessionMessageReceipt, SendSessionMessageTool, SendStep,
};
use session_messaging::session::{
    inspect_session, AgentStatus, LiveSession, SessionAvailability, SessionMessagingConfig,
    SessionMessagingIdentity, ThreadSnapshot,
};
use session_messaging::thread_id::ThreadId;

const PEER_MESSAGE: &str = "Please verify the shared API contract.";

fn live(id: u128) -> ThreadSnapshot {
    ThreadSnapshot {
        config: Some(SessionMessagingConfig {
            enabled: true,
            ephemeral: false,
            cwd: "/work/api".to_string(),
        }),
        identity: Some(SessionMessagingIdentity { is_root: true }),
        status: AgentStatus::Completed(None),
        thread_id: ThreadId::from_u128(id),
        name: Some("api-worker".to_string()),
    }
}

fn not_enabled(id: u128) -> ThreadSnapshot {
    let mut thread = live(id);
    thread.config.as_mut().expect("config").enabled = false;
    thread
}

fn ephemeral(id: u128) -> ThreadSnapshot {
    let mut thread = live(id);
    thread.config.as_mut().expect("config").ephemeral = true;
    thread
}

fn sub_agent(id: u128) -> ThreadSnapshot {
    let mut thread = live(id);
    thread.identity = Some(SessionMessagingIdentity { is_root: false });
    thread
}

fn shut_down(id: u128) -> ThreadSnapshot {
    let mut thread = live(id);
    thread.status = AgentStatus::Shutdown;
    thread
}

fn runtime() -> SessionMessagingRuntime {
    SessionMessagingRuntime::new(ThreadId::from_u128(1))
}

fn told(text: &str) -> FunctionCallError {
    FunctionCallError::RespondToModel(text.to_string())
}

fn list(lookup: SenderLookup, ids: Vec<u128>, threads: Vec<Option<ThreadSnapshot>>) -> ListStep {
    let ListStep::LookUpSender(pending) =
        ListSessionsTool::new(runtime()).handle_call(Ok(ListSessionsArgs {}))
    else {
        panic!("a listing looks the sender up first");
    };
    let pending = match pending.resume(&lookup) {
        ListStep::ListThreads(pending) => pending,
        other => return other,
    };
    let ids = ids.into_iter().map(ThreadId::from_u128).collect();
    let ListStep::LookUpPeers(pending) = pending.resume(ids) else {
        panic!("a listing looks the peers up next");
    };
    assert_eq!(pending.peers.len(), threads.len());
    pending.resume(&threads)
}

fn send(
    read: Result<SendSessionMessageArgs, String>,
    lookup: SenderLookup,
    recipient: Option<ThreadSnapshot>,
    outcome: Result<String, String>,
    budget: &mut SessionMessageBudget,
) -> (bool, Result<SendSessionMessageReceipt, FunctionCallError>) {
    let mut step = SendSessionMessageTool::new(runtime()).handle_call(read);
    loop {
        step = match step {
            SendStep::LookUpSender(pending) => pending.resume(&lookup),
            SendStep::LookUpRecipient(pending) => {
                assert_eq!(pending.communication.recipient, ThreadId::from_u128(2));
                pending.resume(&recipient, budget)
            }
            SendStep::Submit(pending) => {
                assert_eq!(pending.communication.message, PEER_MESSAGE);
                assert_eq!(pending.communication.sender, ThreadId::from_u128(1));
                return (true, pending.resume(outcome, budget));
            }
            SendStep::Return(result) => return (false, result),
        }
    }
}

fn args(thread_id: &str) -> Result<SendSessionMessageArgs, String> {
    Ok(SendSessionMessageArgs {
        thread_id: thread_id.to_string(),
        message: PEER_MESSAGE.to_string(),
    })
}

fn to_two() -> Result<SendSessionMessageArgs, String> {
    args("00000000-0000-0000-0000-000000000002")
}

fn refusal(
    read: Result<SendSessionMessageArgs, String>,
    lookup: SenderLookup,
    recipient: Option<ThreadSnapshot>,
) -> FunctionCallError {
    let mut budget = SessionMessageBudget::default();
    let (submitted, result) = send(read, lookup, recipient, Ok("s".to_string()), &mut budget);
    assert!(!submitted);
    assert_eq!(budget.state().reservations, 0);
    result.expect_err("refusal")
}

#[test]
fn sessions_are_inspected_scope_first() {
    assert_eq!(
        inspect_session(&live(2)),
        SessionAvailability::Eligible(LiveSession {
            thread_id: ThreadId::from_u128(2),
            name: Some("api-worker".to_string()),
            cwd: "/work/api".to_string(),
            status: "idle",
        })
    );
    assert_eq!(inspect_session(&not_enabled(2)), SessionAvailability::FeatureDisabled);
    assert_eq!(inspect_session(&ephemeral(2)), SessionAvailability::OutsideScope);
    assert_eq!(inspect_session(&sub_agent(2)), SessionAvailability::OutsideScope);
    assert_eq!(inspect_session(&shut_down(2)), SessionAvailability::NotLive);
    let mut both = not_enabled(2);
    both.config.as_mut().expect("config").ephemeral = true;
    assert_eq!(inspect_session(&both), SessionAvailability::OutsideScope);
    let mut unknown = live(2);
    unknown.config = None;
    assert_eq!(inspect_session(&unknown), SessionAvailability::NotLive);
    let mut unknown = live(2);
    unknown.identity = None;
    assert_eq!(inspect_session(&unknown), SessionAvailability::NotLive);
}

#[test]
fn listing_is_sorted_and_leaves_out_who_cannot_be_reached() {
    let step = list(
        SenderLookup::Found(live(1)),
        vec![0x20, 1, 2, 3, 4, 5, 6, 7],
        vec![
            Some(live(0x20)),
            Some(live(2)),
            Some(not_enabled(3)),
            Some(ephemeral(4)),
            Some(sub_agent(5)),
            Some(shut_down(6)),
            None,
        ],
    );
    let ListStep::Return(Ok(response)) = step else {
        panic!("a listing ends in a response");
    };
    let line = |id: &str| SessionSummary {
        thread_id: id.to_string(),
        name: Some("api-worker".to_string()),
        cwd: "/work/api".to_string(),
        status: "idle",
    };
    assert_eq!(
        response,
        ListSessionsResponse {
            scope: "live_root_sessions",
            transport: "shared_app_server_process",
            sessions: vec![
                line("00000000-0000-0000-0000-000000000002"),
                line("00000000-0000-0000-0000-000000000020"),
            ],
        }
    );
}

#[test]
fn lines_with_one_identifier_keep_their_order() {
    let named = |id: u128, name: &str| {
        let mut thread = live(id);
        thread.name = Some(name.to_string());
        Some(thread)
    };
    let response = list_reachable(&vec![
        named(9, "a"),
        named(5, "b"),
        named(9, "c"),
        named(5, "d"),
        named(1, "e"),
    ]);
    let names = response
        .sessions
        .iter()
        .map(|session| session.name.clone().expect("name"))
        .collect::<Vec<_>>();
    assert_eq!(names, vec!["e", "b", "d", "a", "c"]);
}

#[test]
fn listing_needs_readable_arguments_and_an_eligible_sender() {
    let step = ListSessionsTool::new(runtime()).handle_call(Err("why not".to_string()));
    assert!(matches!(
        step,
        ListStep::Return(Err(FunctionCallError::RespondToModel(text)))
            if text == "invalid list_sessions arguments: why not"
    ));
    assert!(matches!(
        list(SenderLookup::ProcessGone, vec![], vec![]),
        ListStep::Return(Err(FunctionCallError::Fatal(text)))
            if text == "shared app-server process is no longer available"
    ));
    for lookup in [
        SenderLookup::SenderGone,
        SenderLookup::Found(not_enabled(1)),
        SenderLookup::Found(sub_agent(1)),
    ] {
        assert!(matches!(
            list(lookup, vec![], vec![]),
            ListStep::Return(Err(FunctionCallError::RespondToModel(text)))
                if text == "current session is no longer eligible for cross-session messaging"
        ));
    }
}

#[test]
fn listed_identifiers_lead_to_their_sessions() {
    let response = list_reachable(&vec![Some(live(2))]);
    let mut budget = SessionMessageBudget::default();
    let (submitted, result) = send(
        args(&response.sessions[0].thread_id),
        SenderLookup::Found(live(1)),
        Some(live(2)),
        Ok("submission-1".to_string()),
        &mut budget,
    );
    assert!(submitted);
    assert!(result.is_ok());
}

#[test]
fn accepted_message_is_acknowledged_and_counted() {
    let mut budget = SessionMessageBudget::default();
    let (submitted, result) = send(
        to_two(),
        SenderLookup::Found(live(1)),
        Some(live(2)),
        Ok("submission-1".to_string()),
        &mut budget,
    );
    assert!(submitted);
    assert_eq!(
        result,
        Ok(SendSessionMessageReceipt {
            state: "enqueued_for_target_session_dispatch",
            sender_thread_id: "00000000-0000-0000-0000-000000000001".to_string(),
            recipient_thread_id: "00000000-0000-0000-0000-000000000002".to_string(),
            receiver_submission_id: "submission-1".to_string(),
            processed_by_model: false,
            detail: "The message was accepted and enqueued for target session dispatch; it has not necessarily been consumed by the target session or processed by its model.",
        })
    );
    assert_eq!(budget.state().reservations, 1);
}

#[test]
fn a_message_that_the_target_refuses_does_not_count() {
    let mut budget = SessionMessageBudget::default();
    let (submitted, result) = send(
        to_two(),
        SenderLookup::Found(live(1)),
        Some(live(2)),
        Err("channel closed".to_string()),
        &mut budget,
    );
    assert!(submitted);
    assert_eq!(
        result,
        Err(told(
            "failed to enqueue session message for target session dispatch: channel closed"
        ))
    );
    assert_eq!(budget.state().reservations, 0);
}

#[test]
fn a_send_that_is_given_up_does_not_count() {
    let mut budget = SessionMessageBudget::default();
    let SendStep::LookUpSender(pending) = SendSessionMessageTool::new(runtime()).handle_call(to_two())
    else {
        panic!("a send looks the sender up first");
    };
    let SendStep::LookUpRecipient(pending) = pending.resume(&SenderLookup::Found(live(1))) else {
        panic!("a send looks the recipient up next");
    };
    let SendStep::Submit(pending) = pending.resume(&Some(live(2)), &mut budget) else {
        panic!("a send hands the message over");
    };
    assert_eq!(budget.state().reservations, 1);
    pending.abandon(&mut budget);
    assert_eq!(budget.state().reservations, 0);
}

#[test]
fn a_spent_budget_stops_messages_until_the_user_types() {
    let mut budget = SessionMessageBudget::default();
    for _ in 0..OUTBOUND_MESSAGE_LIMIT {
        let (_, result) = send(
            to_two(),
            SenderLookup::Found(live(1)),
            Some(live(2)),
            Ok("s".to_string()),
            &mut budget,
        );
        assert!(result.is_ok());
    }
    let (submitted, result) = send(
        to_two(),
        SenderLookup::Found(live(1)),
        Some(live(2)),
        Ok("s".to_string()),
        &mut budget,
    );
    assert!(!submitted);
    assert_eq!(
        result,
        Err(told("outbound session message limit reached; ask the user for new explicit input before sending another session message"))
    );
    budget.reset();
    let (submitted, _) = send(
        to_two(),
        SenderLookup::Found(live(1)),
        Some(live(2)),
        Ok("s".to_string()),
        &mut budget,
    );
    assert!(submitted);
}

#[test]
fn refusals_say_why() {
    let sender = || SenderLookup::Found(live(1));
    assert_eq!(
        refusal(Err("bad".to_string()), sender(), Some(live(2))),
        told("invalid send_session_message arguments: bad")
    );
    assert_eq!(
        refusal(
            Ok(SendSessionMessageArgs {
                thread_id: "not a uuid".to_string(),
                message: "\n".to_string(),
            }),
            sender(),
            None
        ),
        told("message must not be empty")
    );
    assert_eq!(
        refusal(args("not a uuid"), sender(), Some(live(2))),
        told("thread_id must be a valid session UUID")
    );
    for own in [
        "00000000-0000-0000-0000-000000000001",
        "00000000000000000000000000000001",
        "urn:uuid:00000000-0000-0000-0000-000000000001",
    ] {
        assert_eq!(
            refusal(args(own), sender(), Some(live(2))),
            told("cannot send a session message to the current session")
        );
    }
    assert_eq!(
        refusal(to_two(), SenderLookup::ProcessGone, Some(live(2))),
        FunctionCallError::Fatal("shared app-server process is no longer available".to_string())
    );
    assert_eq!(
        refusal(to_two(), SenderLookup::SenderGone, Some(live(2))),
        told("current session is no longer eligible for cross-session messaging")
    );
    assert_eq!(
        refusal(to_two(), sender(), None),
        told("target session is not live in this shared app-server process")
    );
    assert_eq!(
        refusal(to_two(), sender(), Some(shut_down(2))),
        told("target session is not live in this shared app-server process")
    );
    assert_eq!(
        refusal(to_two(), sender(), Some(not_enabled(2))),
        told("target session has not enabled cross-session messaging")
    );
    assert_eq!(
        refusal(to_two(), sender(), Some(ephemeral(2))),
        told("target must be a non-ephemeral independent root session")
    );
}

#[test]
fn sessions_that_are_not_listed_refuse_messages() {
    let threads: [fn(u128) -> ThreadSnapshot; 5] =
        [live, not_enabled, ephemeral, sub_agent, shut_down];
    for thread in threads {
        let listed = list_reachable(&vec![Some(thread(2))]).sessions.len();
        let mut budget = SessionMessageBudget::default();
        let (submitted, _) = send(
            to_two(),
            SenderLookup::Found(live(1)),
            Some(thread(2)),
            Ok("s".to_string()),
            &mut budget,
        );
        assert_eq!(submitted, listed == 1);
    }
    assert!(list_reachable(&vec![None]).sessions.is_empty());
}

#[test]
fn listing_does_not_depend_on_the_order_of_the_sessions() {
    let threads = |ids: &[u128]| ids.iter().map(|id| Some(live(*id))).collect::<Vec<_>>();
    let response = list_reachable(&threads(&[7, 2, 0xff, 0x10, 3]));
    assert_eq!(response, list_reachable(&threads(&[0xff, 3, 7, 0x10, 2])));
    let ids = response
        .sessions
        .iter()
        .map(|session| session.thread_id.clone())
        .collect::<Vec<_>>();
    assert!(ids.windows(2).all(|pair| pair[0] < pair[1]));
}
