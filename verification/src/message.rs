//! The messages that sessions send each other.

use vstd::prelude::*;
use vstd::string::StringExecFns;
use vstd::utf8::encode_utf8;

use crate::error::{told_to_model, ErrorView, FunctionCallError};
use crate::text::{
    approx_token_count, approx_tokens, byte_len, decimal, decimal_text, is_blank,
    lemma_byte_len_of_both, lemma_trimmed_empty_iff_blank,
};
use crate::thread_id::{hyphenated, identifier_reads_back, ThreadId};

verus! {

/// Upper bound on a single message body, leaving headroom for the provenance
/// envelope rendered around it.
pub const MESSAGE_MAX_APPROX_TOKENS: usize = 8_000;

/// The largest rendered message, in approximate tokens, that a receiving
/// session keeps when it compacts its history.
pub const MAX_RETAINED_AGENT_MESSAGE_TOKENS: usize = 10_000;

/// The refusal of a message of `tokens` approximate tokens.
pub open spec fn too_long_text(tokens: nat) -> Seq<char> {
    "message exceeds the maximum approximate token count of "@ + decimal(
        MESSAGE_MAX_APPROX_TOKENS as nat,
    ) + " ("@ + decimal(tokens) + " approximate tokens provided)"@
}

/// Why a message body is refused, if it is: it holds only white space, or it
/// is too long.
pub open spec fn message_refusal(message: Seq<char>) -> Option<ErrorView> {
    if is_blank(message) {
        Some(ErrorView::RespondToModel("message must not be empty"@))
    } else if approx_tokens(message) > MESSAGE_MAX_APPROX_TOKENS {
        Some(ErrorView::RespondToModel(too_long_text(approx_tokens(message))))
    } else {
        None
    }
}

/// Checks a message body.
pub fn validate_message(message: &str) -> (result: Result<(), FunctionCallError>)
    ensures
        result is Ok <==> message_refusal(message@) is None,
        result matches Err(error) ==> message_refusal(message@) == Some(error@),
{
    let trimmed: &str = message.trim();
    proof {
        lemma_trimmed_empty_iff_blank(message@, trimmed@);
    }
    if trimmed.is_empty() {
        return Err(told_to_model("message must not be empty"));
    }
    let approx_tokens: usize = approx_token_count(message);
    if approx_tokens > MESSAGE_MAX_APPROX_TOKENS {
        let mut text = "message exceeds the maximum approximate token count of ".to_owned();
        text.append(decimal_text(MESSAGE_MAX_APPROX_TOKENS).as_str());
        text.append(" (");
        text.append(decimal_text(approx_tokens).as_str());
        text.append(" approximate tokens provided)");
        return Err(FunctionCallError::RespondToModel(text));
    }
    Ok(())
}

/// A message on its way from one session to another.
#[derive(Debug, PartialEq, Eq)]
pub struct InterAgentCommunication {
    pub sender: ThreadId,
    pub recipient: ThreadId,
    pub message: String,
}

/// An [`InterAgentCommunication`] by its text.
pub struct CommunicationView {
    pub sender: ThreadId,
    pub recipient: ThreadId,
    pub message: Seq<char>,
}

impl View for InterAgentCommunication {
    type V = CommunicationView;

    open spec fn view(&self) -> CommunicationView {
        CommunicationView {
            sender: self.sender,
            recipient: self.recipient,
            message: self.message@,
        }
    }
}

impl CommunicationView {
    /// What the receiving model sees: the message in its provenance envelope.
    pub open spec fn rendered(self) -> Seq<char> {
        "Message Type: MESSAGE\nSender Session: "@ + self.sender.text()
            + "\nRecipient Session: "@ + self.recipient.text() + "\nPayload:\n"@ + self.message
    }
}

impl InterAgentCommunication {
    /// The message that `sender` sends to `recipient`.
    pub fn new_session_message(
        sender: ThreadId,
        recipient: ThreadId,
        message: String,
    ) -> (communication: InterAgentCommunication)
        ensures
            communication@ == (CommunicationView { sender, recipient, message: message@ }),
            communication.sender == sender,
            communication.recipient == recipient,
            communication.message@ == message@,
    {
        InterAgentCommunication { sender, recipient, message }
    }

    /// Renders the message as the receiving model sees it.
    pub fn to_model_input_text(&self) -> (text: String)
        ensures
            text@ == self@.rendered(),
    {
        let mut text = "Message Type: MESSAGE\nSender Session: ".to_owned();
        text.append(self.sender.to_string().as_str());
        text.append("\nRecipient Session: ");
        text.append(self.recipient.to_string().as_str());
        text.append("\nPayload:\n");
        text.append(self.message.as_str());
        text
    }
}

proof fn lemma_id_text_size(id: ThreadId)
    ensures
        byte_len(id.text()) == 36,
{
    assert(vstd::utf8::is_ascii_chars(id.text())) by {
        assert forall|i: int| 0 <= i < id.text().len() implies '\0' <= #[trigger] id.text()[i]
            <= '\u{7f}' by {
            assert(hyphenated(id.value)[i] == id.text()[i]);
        }
    }
    vstd::utf8::is_ascii_chars_encode_utf8(id.text());
}

/// The envelope adds the same number of bytes to every message.
pub proof fn lemma_envelope_size(communication: CommunicationView)
    ensures
        byte_len(communication.rendered()) == byte_len(communication.message) + 140,
{
    let (from, to) = (communication.sender.text(), communication.recipient.text());
    let head = "Message Type: MESSAGE\nSender Session: "@;
    let middle = "\nRecipient Session: "@;
    let tail = "\nPayload:\n"@;
    reveal_strlit("Message Type: MESSAGE\nSender Session: ");
    reveal_strlit("\nRecipient Session: ");
    reveal_strlit("\nPayload:\n");
    vstd::utf8::is_ascii_chars_encode_utf8(head);
    vstd::utf8::is_ascii_chars_encode_utf8(middle);
    vstd::utf8::is_ascii_chars_encode_utf8(tail);
    lemma_id_text_size(communication.sender);
    lemma_id_text_size(communication.recipient);
    lemma_byte_len_of_both(head, from);
    lemma_byte_len_of_both(head + from, middle);
    lemma_byte_len_of_both(head + from + middle, to);
    lemma_byte_len_of_both(head + from + middle + to, tail);
    lemma_byte_len_of_both(head + from + middle + to + tail, communication.message);
}

/// Every message that passes [`validate_message`] still fits, once rendered,
/// into what a receiving session keeps.
pub proof fn valid_message_survives_compaction(communication: CommunicationView)
    requires
        message_refusal(communication.message) is None,
    ensures
        approx_tokens(communication.rendered()) <= MAX_RETAINED_AGENT_MESSAGE_TOKENS,
{
    lemma_envelope_size(communication);
}

/// A message is accepted exactly if at least one of its characters is no white
/// space and it takes at most 32,000 bytes; every other one is refused with a
/// text for the model that says which of the two is wrong, and how long it is.
pub proof fn accepted_messages_say_something_and_are_short(
    message: Seq<char>,
    result: Result<(), FunctionCallError>,
)
    requires
        result is Ok <==> message_refusal(message) is None,
        result matches Err(error) ==> message_refusal(message) == Some(error@),
    ensures
        ({
            let says_something = exists|i: int|
                0 <= i < message.len() && {
                    let c = (#[trigger] message[i]) as int;
                    !(9 <= c <= 13 || c == 0x20 || c == 0x85 || c == 0xa0 || c == 0x1680 || 0x2000
                        <= c <= 0x200a || c == 0x2028 || c == 0x2029 || c == 0x202f || c == 0x205f
                        || c == 0x3000)
                };
            let bytes = encode_utf8(message).len();
            &&& result is Ok <==> says_something && bytes <= 32_000
            &&& result matches Err(error) ==> (error matches FunctionCallError::RespondToModel(text)
                && text@ == if !says_something {
                "message must not be empty"@
            } else {
                "message exceeds the maximum approximate token count of 8000 ("@ + decimal(
                    (bytes + 3) / 4,
                ) + " approximate tokens provided)"@
            })
        }),
{
    reveal_with_fuel(decimal, 5);
    reveal_strlit("message exceeds the maximum approximate token count of ");
    reveal_strlit("message exceeds the maximum approximate token count of 8000 (");
    reveal_strlit(" (");
    assert(decimal(8000) =~= seq!['8', '0', '0', '0']);
    assert("message exceeds the maximum approximate token count of "@ + decimal(8000) + " ("@
        =~= "message exceeds the maximum approximate token count of 8000 ("@);
    if is_blank(message) {
        assert forall|i: int| 0 <= i < message.len() implies {
            let c = (#[trigger] message[i]) as int;
            9 <= c <= 13 || c == 0x20 || c == 0x85 || c == 0xa0 || c == 0x1680 || 0x2000 <= c
                <= 0x200a || c == 0x2028 || c == 0x2029 || c == 0x202f || c == 0x205f || c == 0x3000
        } by {
            assert(crate::text::is_white_space(message[i]));
        }
    } else {
        let i = choose|i: int|
            0 <= i < message.len() && !crate::text::is_white_space(#[trigger] message[i]);
        assert(0 <= i < message.len());
    }
}

/// What the receiving model sees can be taken apart again: behind the label of
/// the sender stand the thirty-six characters that read as the sender's
/// identifier, behind the label of the recipient those that read as the
/// recipient's, and behind the label of the payload the message.
pub proof fn rendered_message_can_be_taken_apart(
    communication: InterAgentCommunication,
    text: Seq<char>,
)
    requires
        text == communication@.rendered(),
    ensures
        text.len() == 140 + communication.message@.len(),
        text.take(38) == "Message Type: MESSAGE\nSender Session: "@,
        ThreadId::parsed(text.subrange(38, 74)) == Some(communication.sender),
        text.subrange(74, 94) == "\nRecipient Session: "@,
        ThreadId::parsed(text.subrange(94, 130)) == Some(communication.recipient),
        text.subrange(130, 140) == "\nPayload:\n"@,
        text.skip(140) == communication.message@,
{
    reveal_strlit("Message Type: MESSAGE\nSender Session: ");
    reveal_strlit("\nRecipient Session: ");
    reveal_strlit("\nPayload:\n");
    identifier_reads_back(communication.sender);
    identifier_reads_back(communication.recipient);
    assert(text.take(38) =~= "Message Type: MESSAGE\nSender Session: "@);
    assert(text.subrange(38, 74) =~= communication.sender.text());
    assert(text.subrange(74, 94) =~= "\nRecipient Session: "@);
    assert(text.subrange(94, 130) =~= communication.recipient.text());
    assert(text.subrange(130, 140) =~= "\nPayload:\n"@);
    assert(text.skip(140) =~= communication.message@);
}

/// Two messages that look the same to the receiving model come from the same
/// session, go to the same session and say the same.
pub proof fn different_messages_are_rendered_differently(
    a: InterAgentCommunication,
    b: InterAgentCommunication,
)
    requires
        a@.rendered() == b@.rendered(),
    ensures
        a.sender == b.sender,
        a.recipient == b.recipient,
        a.message@ == b.message@,
{
    rendered_message_can_be_taken_apart(a, a@.rendered());
    rendered_message_can_be_taken_apart(b, b@.rendered());
}

} // verus!
