use session_messaging::budget::{SessionMessageBudget, OUTBOUND_MESSAGE_LIMIT};
use session_messaging::extension::{
    reset_budget_for_explicit_user_input, tools_enabled, HostConfig, SessionMessagingExtension,
};
use session_messaging::runtime::SenderLookup;
use session_messaging::send_message::{
    SendRecipientPending, SendSessionMessageArgs, SendSessionMessageTool, SendStep,
};
use session_messaging::session::{
    AgentStatus, SessionMessagingConfig, SessionMessagingIdentity, ThreadSnapshot,
};
use session_messaging::store::ThreadStore;
use session_messaging::thread_id::ThreadId;

const SESSION: &str = "00000000-0000-4000-8000-000000000001";

fn exhausted_budget_store() -> ThreadStore {
    let mut thread_store = ThreadStore::new("thread-1".to_string());
    thread_store.budget = Some(SessionMessageBudget::default());
    let budget = thread_store.budget.as_mut().expect("budget");
    for _ in 0..OUTBOUND_MESSAGE_LIMIT {
        let committed = budget.reserve().expect("reservation").commit();
        budget.release(committed);
    }
    thread_store
}

fn config(enabled: bool, ephemeral: bool) -> HostConfig {
    HostConfig {
        cross_session_messaging: enabled,
        ephemeral,
        cwd: "/work/link".to_string(),
        canonical_cwd: Some("/work/api".to_string()),
    }
}

fn started_store(level_id: &str, config: &HostConfig, is_non_root_agent: bool) -> ThreadStore {
    let mut store = ThreadStore::new(level_id.to_string());
    SessionMessagingExtension {}.on_thread_start(&mut store, config, is_non_root_agent);
    store
}

#[test]
fn empty_peer_turn_does_not_reset_the_budget() {
    let mut thread_store = exhausted_budget_store();
    reset_budget_for_explicit_user_input::<String>(&mut thread_store, &[]);
    assert!(thread_store.budget.as_mut().expect("budget").reserve().is_none());
}

#[test]
fn explicit_user_input_resets_the_budget() {
    let mut thread_store = exhausted_budget_store();
    reset_budget_for_explicit_user_input(
        &mut thread_store,
        &["Continue with another session message.".to_string()],
    );
    assert!(thread_store.budget.as_mut().expect("budget").reserve().is_some());
}

#[test]
fn user_input_without_a_budget_changes_nothing() {
    let mut store = ThreadStore::new(SESSION.to_string());
    reset_budget_for_explicit_user_input(&mut store, &[1u8]);
    assert!(store.budget.is_none());
}

#[test]
fn configuration_prefers_the_canonical_directory() {
    assert_eq!(
        SessionMessagingConfig::from_config(&config(true, false)),
        SessionMessagingConfig {
            enabled: true,
            ephemeral: false,
            cwd: "/work/api".to_string(),
        }
    );
    let mut unresolved = config(false, true);
    unresolved.canonical_cwd = None;
    assert_eq!(
        SessionMessagingConfig::from_config(&unresolved),
        SessionMessagingConfig {
            enabled: false,
            ephemeral: true,
            cwd: "/work/link".to_string(),
        }
    );
}

#[test]
fn only_enabled_lasting_root_sessions_get_tools() {
    assert!(tools_enabled(&started_store(SESSION, &config(true, false), false)));
    assert!(!tools_enabled(&started_store(SESSION, &config(false, false), false)));
    assert!(!tools_enabled(&started_store(SESSION, &config(true, true), false)));
    assert!(!tools_enabled(&started_store(SESSION, &config(true, false), true)));
    assert!(!tools_enabled(&ThreadStore::new(SESSION.to_string())));
}

#[test]
fn tools_belong_to_the_session_of_the_store() {
    let extension = SessionMessagingExtension {};
    let mut store = started_store(SESSION, &config(true, false), false);
    let (list, send) = extension.tools(&store).expect("tools");
    let id = ThreadId::from_string(SESSION).expect("id");
    assert_eq!(list.runtime.sender_thread_id, id);
    assert_eq!(send.runtime.sender_thread_id, id);
    assert_eq!(list.tool_name(), "list_sessions");
    assert_eq!(send.tool_name(), "send_session_message");
    store.budget = None;
    assert!(extension.tools(&store).is_none());
}

#[test]
fn a_session_without_a_uuid_gets_no_tools() {
    let extension = SessionMessagingExtension {};
    let store = started_store("thread-1", &config(true, false), false);
    assert!(extension.tools(&store).is_none());
    assert!(extension.tools_for(&store, Some(ThreadId::from_u128(9))).is_some());
}

#[test]
fn a_changed_configuration_takes_the_tools_away_and_keeps_the_budget() {
    let extension = SessionMessagingExtension {};
    let mut store = started_store(SESSION, &config(true, false), false);
    let _open = store.budget.as_mut().expect("budget").reserve();
    extension.on_config_changed(&mut store, &config(false, false));
    assert!(extension.tools(&store).is_none());
    assert_eq!(store.budget.as_ref().expect("budget").state().reservations, 1);
    extension.on_config_changed(&mut store, &config(true, false));
    assert!(extension.tools(&store).is_some());
}

fn live(id: ThreadId) -> ThreadSnapshot {
    ThreadSnapshot {
        config: Some(SessionMessagingConfig::from_config(&config(true, false))),
        identity: Some(SessionMessagingIdentity { is_root: true }),
        status: AgentStatus::Running,
        thread_id: id,
        name: None,
    }
}

fn before_recipient(tool: &SendSessionMessageTool) -> SendRecipientPending {
    let step = tool.handle_call(Ok(SendSessionMessageArgs {
        thread_id: ThreadId::from_u128(2).to_string(),
        message: "hello".to_string(),
    }));
    let SendStep::LookUpSender(pending) = step else {
        panic!("a send looks the sender up first");
    };
    let sender = SenderLookup::Found(live(tool.runtime.sender_thread_id));
    let SendStep::LookUpRecipient(pending) = pending.resume(&sender) else {
        panic!("a send looks the recipient up next");
    };
    pending
}

#[test]
fn all_tools_of_a_store_share_its_budget() {
    let extension = SessionMessagingExtension {};
    let mut store = started_store(SESSION, &config(true, false), false);
    let found = Some(live(ThreadId::from_u128(2)));
    for taken in 1..=OUTBOUND_MESSAGE_LIMIT {
        let (_, send) = extension.tools(&store).expect("tools");
        let SendStep::Submit(pending) = before_recipient(&send).resume_in(&found, &mut store) else {
            panic!("a slot is left");
        };
        assert!(pending.resume_in(Ok("s".to_string()), &mut store).is_ok());
        assert_eq!(store.budget.as_ref().expect("budget").state().reservations, taken);
    }
    let (_, send) = extension.tools(&store).expect("tools");
    let step = before_recipient(&send).resume_in(&found, &mut store);
    assert!(matches!(step, SendStep::Return(Err(_))));
    reset_budget_for_explicit_user_input(&mut store, &["go on"]);
    let SendStep::Submit(pending) = before_recipient(&send).resume_in(&found, &mut store) else {
        panic!("a slot is left");
    };
    assert!(pending.resume_in(Err("closed".to_string()), &mut store).is_err());
    assert_eq!(store.budget.as_ref().expect("budget").state().reservations, 0);
    let SendStep::Submit(pending) = before_recipient(&send).resume_in(&found, &mut store) else {
        panic!("a slot is left");
    };
    pending.abandon_in(&mut store);
    assert_eq!(store.budget.as_ref().expect("budget").state().reservations, 0);
    assert_eq!(store.level_id, SESSION);
    assert!(tools_enabled(&store));
}
