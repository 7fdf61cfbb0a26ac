//! How the messaging tools are described to the model.

use vstd::prelude::*;
use vstd::string::StringExecFns;

use crate::budget::OUTBOUND_MESSAGE_LIMIT;
use crate::message::MESSAGE_MAX_APPROX_TOKENS;
use crate::text::{decimal, decimal_text, texts};

verus! {

pub const LIST_SESSIONS_TOOL_NAME: &'static str = "list_sessions";

pub const SEND_SESSION_MESSAGE_TOOL_NAME: &'static str = "send_session_message";

pub const LIST_SESSIONS_DESCRIPTION: &'static str = "List live independent root sessions that share this app-server daemon/process. Session UUIDs are the stable routing keys for send_session_message; each entry includes its working directory for identification.";

/// A parameter that is a text.
#[derive(Debug, PartialEq, Eq)]
pub struct StringProperty {
    pub name: String,
    pub description: String,
}

/// The parameters of a tool: an object whose members are texts.
#[derive(Debug, PartialEq, Eq)]
pub struct JsonSchema {
    /// Ordered by name.
    pub properties: Vec<StringProperty>,
    pub required: Option<Vec<String>>,
    /// Whether members that are not named may be given.
    pub additional_properties: Option<bool>,
}

/// A tool that is called like a function.
#[derive(Debug, PartialEq, Eq)]
pub struct ResponsesApiTool {
    pub name: String,
    pub description: String,
    pub strict: bool,
    pub defer_loading: Option<bool>,
    pub parameters: JsonSchema,
    pub output_schema: Option<JsonSchema>,
}

/// The description of a tool.
#[derive(Debug, PartialEq, Eq)]
pub enum ToolSpec {
    Function(ResponsesApiTool),
}

/// The names and descriptions of parameters.
pub open spec fn property_texts(properties: Seq<StringProperty>) -> Seq<(Seq<char>, Seq<char>)> {
    properties.map_values(|property: StringProperty| (property.name@, property.description@))
}

/// A function tool with these texts that wants each of its parameters and no
/// others.
pub open spec fn describes(
    described: ToolSpec,
    name: Seq<char>,
    description: Seq<char>,
    properties: Seq<(Seq<char>, Seq<char>)>,
    required: Seq<Seq<char>>,
) -> bool {
    let ToolSpec::Function(tool) = described;
    &&& tool.name@ == name
    &&& tool.description@ == description
    &&& !tool.strict
    &&& tool.defer_loading is None
    &&& property_texts(tool.parameters.properties@) == properties
    &&& tool.parameters.required matches Some(names) && texts(names@) == required
    &&& tool.parameters.additional_properties == Some(false)
    &&& tool.output_schema is None
}

/// Describes the tool that lists sessions: it takes no parameters.
pub fn list_sessions_tool_spec() -> (description: ToolSpec)
    ensures
        describes(
            description,
            LIST_SESSIONS_TOOL_NAME@,
            LIST_SESSIONS_DESCRIPTION@,
            Seq::empty(),
            Seq::empty(),
        ),
{
    let properties: Vec<StringProperty> = Vec::new();
    let required: Vec<String> = Vec::new();
    proof {
        assert(property_texts(properties@) =~= Seq::empty());
        assert(texts(required@) =~= Seq::empty());
    }
    ToolSpec::Function(
        ResponsesApiTool {
            name: LIST_SESSIONS_TOOL_NAME.to_owned(),
            description: LIST_SESSIONS_DESCRIPTION.to_owned(),
            strict: false,
            defer_loading: None,
            parameters: JsonSchema {
                properties,
                required: Some(required),
                additional_properties: Some(false),
            },
            output_schema: None,
        },
    )
}

/// What the message parameter is described as.
pub open spec fn message_parameter_text() -> Seq<char> {
    "Non-empty peer message with a maximum of "@ + decimal(MESSAGE_MAX_APPROX_TOKENS as nat)
        + " approximate tokens."@
}

/// What the tool that sends a message is described as.
pub open spec fn send_tool_text() -> Seq<char> {
    "Send a peer message to a live independent root session in the shared app-server daemon/process. Use the stable session UUID returned by list_sessions. Delivery wakes an idle target. For a busy target, the message is queued for next mailbox check; it may end a current model response early but does not cancel running tools. At most "@
        + decimal(OUTBOUND_MESSAGE_LIMIT as nat)
        + " successful messages may be sent after each explicit user input."@
}

/// Describes the tool that sends a message: it takes the session to send to
/// and the message, both required.
pub fn send_session_message_tool_spec() -> (description: ToolSpec)
    ensures
        describes(
            description,
            SEND_SESSION_MESSAGE_TOOL_NAME@,
            send_tool_text(),
            seq![
                ("message"@, message_parameter_text()),
                ("thread_id"@, "Stable UUID of a target returned by list_sessions."@),
            ],
            seq!["thread_id"@, "message"@],
        ),
{
    let mut message_text = "Non-empty peer message with a maximum of ".to_owned();
    message_text.append(decimal_text(MESSAGE_MAX_APPROX_TOKENS).as_str());
    message_text.append(" approximate tokens.");
    let mut description =
        "Send a peer message to a live independent root session in the shared app-server daemon/process. Use the stable session UUID returned by list_sessions. Delivery wakes an idle target. For a busy target, the message is queued for next mailbox check; it may end a current model response early but does not cancel running tools. At most ".to_owned();
    description.append(decimal_text(OUTBOUND_MESSAGE_LIMIT).as_str());
    description.append(" successful messages may be sent after each explicit user input.");
    let mut properties: Vec<StringProperty> = Vec::new();
    properties.push(StringProperty { name: "message".to_owned(), description: message_text });
    properties.push(
        StringProperty {
            name: "thread_id".to_owned(),
            description: "Stable UUID of a target returned by list_sessions.".to_owned(),
        },
    );
    let mut required: Vec<String> = Vec::new();
    required.push("thread_id".to_owned());
    required.push("message".to_owned());
    proof {
        assert(property_texts(properties@) =~= seq![
            ("message"@, message_parameter_text()),
            ("thread_id"@, "Stable UUID of a target returned by list_sessions."@),
        ]);
        assert(texts(required@) =~= seq!["thread_id"@, "message"@]);
    }
    ToolSpec::Function(
        ResponsesApiTool {
            name: SEND_SESSION_MESSAGE_TOOL_NAME.to_owned(),
            description,
            strict: false,
            defer_loading: None,
            parameters: JsonSchema {
                properties,
                required: Some(required),
                additional_properties: Some(false),
            },
            output_schema: None,
        },
    )
}

proof fn lemma_properties(properties: Seq<StringProperty>)
    ensures
        property_texts(properties).len() == properties.len(),
        forall|i: int|
            0 <= i < properties.len() ==> (#[trigger] properties[i]).name@ == property_texts(
                properties,
            )[i].0 && properties[i].description@ == property_texts(properties)[i].1,
{
}

/// The model is told of the listing tool by its name and purpose, and that it
/// takes an object without any members.
pub proof fn listing_tool_is_described(description: ToolSpec)
    requires
        describes(
            description,
            LIST_SESSIONS_TOOL_NAME@,
            LIST_SESSIONS_DESCRIPTION@,
            Seq::empty(),
            Seq::empty(),
        ),
    ensures
        ({
            let ToolSpec::Function(tool) = description;
            &&& tool.name@ == "list_sessions"@
            &&& tool.description@
                == "List live independent root sessions that share this app-server daemon/process. Session UUIDs are the stable routing keys for send_session_message; each entry includes its working directory for identification."@
            &&& !tool.strict
            &&& tool.defer_loading is None
            &&& tool.output_schema is None
            &&& tool.parameters.properties@.len() == 0
            &&& tool.parameters.required matches Some(required) && required@.len() == 0
            &&& tool.parameters.additional_properties == Some(false)
        }),
{
    let ToolSpec::Function(tool) = description;
    lemma_properties(tool.parameters.properties@);
    assert(texts(tool.parameters.required->0@).len() == tool.parameters.required->0@.len());
}

/// The model is told of the sending tool by its name, its purpose and its
/// limits, and that it takes an object with the identifier of a session and a
/// message, both of them needed and nothing else.
pub proof fn sending_tool_is_described(description: ToolSpec)
    requires
        describes(
            description,
            SEND_SESSION_MESSAGE_TOOL_NAME@,
            send_tool_text(),
            seq![
                ("message"@, message_parameter_text()),
                ("thread_id"@, "Stable UUID of a target returned by list_sessions."@),
            ],
            seq!["thread_id"@, "message"@],
        ),
    ensures
        ({
            let ToolSpec::Function(tool) = description;
            &&& tool.name@ == "send_session_message"@
            &&& tool.description@
                == "Send a peer message to a live independent root session in the shared app-server daemon/process. Use the stable session UUID returned by list_sessions. Delivery wakes an idle target. For a busy target, the message is queued for next mailbox check; it may end a current model response early but does not cancel running tools. At most "@
                + seq!['4']
                + " successful messages may be sent after each explicit user input."@
            &&& !tool.strict
            &&& tool.defer_loading is None
            &&& tool.output_schema is None
            &&& tool.parameters.properties@.len() == 2
            &&& tool.parameters.properties@[0].name@ == "message"@
            &&& tool.parameters.properties@[0].description@
                == "Non-empty peer message with a maximum of "@ + seq!['8', '0', '0', '0']
                + " approximate tokens."@
            &&& tool.parameters.properties@[1].name@ == "thread_id"@
            &&& tool.parameters.properties@[1].description@
                == "Stable UUID of a target returned by list_sessions."@
            &&& tool.parameters.required matches Some(required) && required@.len() == 2
                && required@[0]@ == "thread_id"@ && required@[1]@ == "message"@
            &&& tool.parameters.additional_properties == Some(false)
        }),
{
    reveal_with_fuel(decimal, 5);
    assert(decimal(8000) =~= seq!['8', '0', '0', '0']);
    assert(decimal(4) =~= seq!['4']);
    let ToolSpec::Function(tool) = description;
    lemma_properties(tool.parameters.properties@);
    let required = tool.parameters.required->0@;
    assert(texts(required).len() == required.len());
    assert(texts(required)[0] == required[0]@ && texts(required)[1] == required[1]@);
}

} // verus!
