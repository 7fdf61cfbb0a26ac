use session_messaging::error::FunctionCallError;
use session_messaging::list_sessions::{parse_list_args, ListSessionsArgs};
use session_messaging::message::{
    validate_message, InterAgentCommunication, MAX_RETAINED_AGENT_MESSAGE_TOKENS,
    MESSAGE_MAX_APPROX_TOKENS,
};
use session_messaging::send_message::{parse_send_args, SendSessionMessageArgs};
use session_messaging::session::{coarse_status, AgentStatus};
use session_messaging::text::approx_token_count;
use session_messaging::thread_id::ThreadId;
use session_messaging::tool_spec::{
    list_sessions_tool_spec, send_session_message_tool_spec, ToolSpec, LIST_SESSIONS_TOOL_NAME,
    SEND_SESSION_MESSAGE_TOOL_NAME,
};

fn read_object(arguments: &str) -> Result<serde_json::Map<String, serde_json::Value>, String> {
    serde_json::from_str(arguments).map_err(|err| err.to_string())
}

fn read_list_args(arguments: &str) -> Result<ListSessionsArgs, String> {
    let members = read_object(arguments)?;
    match members.keys().next() {
        Some(name) => Err(format!("unknown field `{name}`, there are no fields")),
        None => Ok(ListSessionsArgs {}),
    }
}

fn read_send_args(arguments: &str) -> Result<SendSessionMessageArgs, String> {
    let members = read_object(arguments)?;
    if let Some(name) = members
        .keys()
        .find(|name| *name != "thread_id" && *name != "message")
    {
        return Err(format!(
            "unknown field `{name}`, expected `thread_id` or `message`"
        ));
    }
    let text = |name: &str| {
        members
            .get(name)
            .and_then(serde_json::Value::as_str)
            .map(str::to_string)
            .ok_or(format!("missing field `{name}`"))
    };
    Ok(SendSessionMessageArgs {
        thread_id: text("thread_id")?,
        message: text("message")?,
    })
}

#[test]
fn tool_specs_expose_the_expected_routing_contract() {
    let ToolSpec::Function(list) = list_sessions_tool_spec();
    assert_eq!(list.name, LIST_SESSIONS_TOOL_NAME);
    assert_eq!(list.parameters.required, Some(Vec::new()));

    let ToolSpec::Function(send) = send_session_message_tool_spec();
    assert_eq!(send.name, SEND_SESSION_MESSAGE_TOOL_NAME);
    assert_eq!(
        send.parameters.required,
        Some(vec!["thread_id".to_string(), "message".to_string()])
    );
}

#[test]
fn send_arguments_parse_as_a_uuid_and_message_pair() {
    let args = parse_send_args(read_send_args(
        r#"{"thread_id":"00000000-0000-0000-0000-000000000002","message":"Can you review the API contract?"}"#,
    ))
    .expect("valid send arguments");
    assert_eq!(args.thread_id, ThreadId::from_u128(2).to_string());
    assert_eq!(args.message, "Can you review the API contract?");
}

#[test]
fn list_arguments_accept_an_empty_object_and_reject_unknown_fields() {
    parse_list_args(read_list_args("{}")).expect("empty object");
    let FunctionCallError::RespondToModel(error) =
        parse_list_args(read_list_args(r#"{"unexpected":true}"#)).expect_err("unknown field")
    else {
        panic!("unknown fields should produce a model-visible error");
    };
    assert!(error.starts_with("invalid list_sessions arguments: "));
}

#[test]
fn invalid_send_arguments_return_a_model_visible_error() {
    let FunctionCallError::RespondToModel(error) =
        parse_send_args(read_send_args("{")).expect_err("malformed json")
    else {
        panic!("malformed arguments should produce a model-visible error");
    };
    assert!(error.starts_with("invalid send_session_message arguments: "));
}

#[test]
fn send_arguments_reject_unknown_and_missing_fields() {
    for arguments in [
        r#"{"thread_id":"00000000-0000-0000-0000-000000000002","message":"hello","urgent":true}"#,
        r#"{"thread_id":"00000000-0000-0000-0000-000000000002"}"#,
        r#"{"message":"hello"}"#,
    ] {
        let FunctionCallError::RespondToModel(error) =
            parse_send_args(read_send_args(arguments)).expect_err("wrong fields")
        else {
            panic!("wrong fields should produce a model-visible error");
        };
        assert!(error.starts_with("invalid send_session_message arguments: "));
    }
}

#[test]
fn message_validation_rejects_empty_and_oversized_payloads() {
    assert_eq!(
        validate_message(" \n"),
        Err(FunctionCallError::RespondToModel(
            "message must not be empty".to_string()
        ))
    );
    let maximum = "xxxx".repeat(MESSAGE_MAX_APPROX_TOKENS);
    assert_eq!(validate_message(&maximum), Ok(()));
    let oversized = "xxxx".repeat(MESSAGE_MAX_APPROX_TOKENS + 1);
    let FunctionCallError::RespondToModel(error) =
        validate_message(&oversized).expect_err("oversized message")
    else {
        panic!("oversized messages should produce a model-visible error");
    };
    assert!(error.starts_with("message exceeds the maximum approximate token count of "));
    assert_eq!(
        error,
        "message exceeds the maximum approximate token count of 8000 (8001 approximate tokens provided)"
    );
}

#[test]
fn maximum_session_message_preserves_item_cap_headroom() {
    let communication = InterAgentCommunication::new_session_message(
        ThreadId::from_u128(1),
        ThreadId::from_u128(2),
        "xxxx".repeat(MESSAGE_MAX_APPROX_TOKENS),
    );
    let text = communication.to_model_input_text();
    assert_eq!(approx_token_count(&text), 8_035);
    assert!(approx_token_count(&text) <= MAX_RETAINED_AGENT_MESSAGE_TOKENS);
}

#[test]
fn agent_status_maps_to_live_session_status() {
    let cases = [
        (AgentStatus::PendingInit, Some("starting")),
        (AgentStatus::Running, Some("running")),
        (AgentStatus::Interrupted, Some("idle")),
        (
            AgentStatus::Completed(Some("done".to_string())),
            Some("idle"),
        ),
        (AgentStatus::Errored("failure".to_string()), Some("error")),
        (AgentStatus::Shutdown, None),
        (AgentStatus::NotFound, None),
    ];
    for (status, expected) in cases {
        assert_eq!(coarse_status(&status), expected);
    }
}

#[test]
fn tool_specs_name_the_limits() {
    let ToolSpec::Function(send) = send_session_message_tool_spec();
    assert!(send
        .description
        .ends_with("At most 4 successful messages may be sent after each explicit user input."));
    let names = send
        .parameters
        .properties
        .iter()
        .map(|property| property.name.as_str())
        .collect::<Vec<_>>();
    assert_eq!(names, vec!["message", "thread_id"]);
    assert_eq!(
        send.parameters.properties[0].description,
        "Non-empty peer message with a maximum of 8000 approximate tokens."
    );
    assert_eq!(send.parameters.additional_properties, Some(false));
    assert!(!send.strict && send.defer_loading.is_none() && send.output_schema.is_none());
    let ToolSpec::Function(list) = list_sessions_tool_spec();
    assert!(list.parameters.properties.is_empty());
    assert!(list.description.starts_with("List live independent root sessions"));
}

#[test]
fn messages_of_white_space_are_empty() {
    for text in ["", " ", "\t\r\n", "\u{a0}\u{2003}\u{3000}", "\u{85}\u{1680}\u{2028}\u{202f}\u{205f}"] {
        assert!(validate_message(text).is_err(), "{text:?}");
    }
    for text in ["x", " x ", "\u{200b}", "\u{feff}", "\u{0}"] {
        assert!(validate_message(text).is_ok(), "{text:?}");
    }
}

#[test]
fn size_counts_bytes_and_rounds_up() {
    assert_eq!(approx_token_count(""), 0);
    assert_eq!(approx_token_count("x"), 1);
    assert_eq!(approx_token_count("xxxx"), 1);
    assert_eq!(approx_token_count("xxxxx"), 2);
    assert_eq!(approx_token_count("\u{20ac}\u{20ac}"), 2);
    assert!(validate_message(&"\u{e9}".repeat(16_000)).is_ok());
    assert!(validate_message(&"\u{e9}".repeat(16_001)).is_err());
}

#[test]
fn rendered_message_names_both_sessions() {
    let communication = InterAgentCommunication::new_session_message(
        ThreadId::from_u128(1),
        ThreadId::from_u128(0xabc),
        "Please verify the shared API contract.".to_string(),
    );
    assert_eq!(
        communication.to_model_input_text(),
        "Message Type: MESSAGE\n\
         Sender Session: 00000000-0000-0000-0000-000000000001\n\
         Recipient Session: 00000000-0000-0000-0000-000000000abc\n\
         Payload:\n\
         Please verify the shared API contract."
    );
}
