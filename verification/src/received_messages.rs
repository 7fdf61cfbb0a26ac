//! The messages that sessions have received, and how they are shown.

use std::collections::HashMap;
use std::collections::VecDeque;

use ratatui::text::Line;
use vstd::prelude::*;
use vstd::string::StringExecFns;

use crate::display::{
    blank_line, dimmed_line, italic_line, labelled_line, line_base, line_of, line_spans, line_view,
    line_views, plain_line, plain_spans, LineView, SpanView, TextStyle,
};
use crate::text::{
    decimal, decimal_text, lemma_line_of_lines, lemma_single_line, lines, text_lines, texts,
};
use crate::thread_id::ThreadId;

verus! {

/// Maximum number of received messages retained per thread.
pub const MAX_MESSAGES_PER_THREAD: usize = 20;

/// The news that a session has received a message.
#[derive(Debug)]
pub struct SessionMessageReceivedNotification {
    pub thread_id: String,
    pub turn_id: String,
    pub sender_thread_id: String,
    pub message: String,
}

/// A message that was received.
#[derive(Debug)]
pub struct ReceivedMessage {
    pub sender_thread_id: String,
    pub message: String,
}

/// The messages that one session has received.
#[derive(Debug)]
pub struct ThreadReceivedMessages {
    /// Newest first.
    pub messages: VecDeque<ReceivedMessage>,
    /// Oldest messages dropped to stay within `MAX_MESSAGES_PER_THREAD`.
    pub omitted_count: usize,
}

/// Cross-session messages received by each thread, shown in the received
/// messages overlay.
#[derive(Debug)]
pub struct ReceivedMessageHistory {
    /// By the bits of the session's identifier.
    pub messages_by_thread: HashMap<u128, ThreadReceivedMessages>,
}

/// A [`ReceivedMessage`] by its texts.
pub struct MessageView {
    pub sender_thread_id: Seq<char>,
    pub message: Seq<char>,
}

impl View for ReceivedMessage {
    type V = MessageView;

    open spec fn view(&self) -> MessageView {
        MessageView { sender_thread_id: self.sender_thread_id@, message: self.message@ }
    }
}

/// A [`ThreadReceivedMessages`] by its texts.
pub struct ThreadHistoryView {
    /// Newest first.
    pub messages: Seq<MessageView>,
    pub omitted_count: nat,
}

impl View for ThreadReceivedMessages {
    type V = ThreadHistoryView;

    open spec fn view(&self) -> ThreadHistoryView {
        ThreadHistoryView {
            messages: self.messages@.map_values(|message: ReceivedMessage| message@),
            omitted_count: self.omitted_count as nat,
        }
    }
}

impl View for ReceivedMessageHistory {
    type V = Map<u128, ThreadHistoryView>;

    open spec fn view(&self) -> Map<u128, ThreadHistoryView> {
        self.messages_by_thread@.map_values(|history: ThreadReceivedMessages| history@)
    }
}

impl ThreadHistoryView {
    /// The history of a session that has received nothing.
    pub open spec fn empty() -> ThreadHistoryView {
        ThreadHistoryView { messages: Seq::empty(), omitted_count: 0 }
    }

    /// Whether no more messages are kept than may be.
    pub open spec fn wf(self) -> bool {
        self.messages.len() <= MAX_MESSAGES_PER_THREAD
    }

    /// Whether one more message drops the oldest one.
    pub open spec fn is_full(self) -> bool {
        self.messages.len() >= MAX_MESSAGES_PER_THREAD
    }

    /// The history after one more message: it comes first, and the oldest one
    /// goes if there are too many.
    pub open spec fn with_message(self, message: MessageView) -> ThreadHistoryView {
        let messages = seq![message] + self.messages;
        if self.is_full() {
            ThreadHistoryView {
                messages: messages.drop_last(),
                omitted_count: self.omitted_count + 1,
            }
        } else {
            ThreadHistoryView { messages, omitted_count: self.omitted_count }
        }
    }

    /// Whether one more dropped message can still be counted.
    pub open spec fn can_count(self) -> bool {
        self.is_full() ==> self.omitted_count < usize::MAX
    }
}

/// What a session has received, as far as a history knows.
pub open spec fn history_of(
    histories: Map<u128, ThreadHistoryView>,
    thread: ThreadId,
) -> ThreadHistoryView {
    if histories.contains_key(thread.value) {
        histories[thread.value]
    } else {
        ThreadHistoryView::empty()
    }
}

/// The histories after a message was received by a session; if its identifier
/// could not be read, nothing changes.
pub open spec fn with_received(
    histories: Map<u128, ThreadHistoryView>,
    thread: Option<ThreadId>,
    message: MessageView,
) -> Map<u128, ThreadHistoryView> {
    match thread {
        Some(thread) => histories.insert(
            thread.value,
            history_of(histories, thread).with_message(message),
        ),
        None => histories,
    }
}

/// Whether one more dropped message of this session can still be counted.
pub open spec fn can_record(
    histories: Map<u128, ThreadHistoryView>,
    thread: Option<ThreadId>,
) -> bool {
    thread matches Some(thread) ==> history_of(histories, thread).can_count()
}

/// Whether every session's history is within its bound.
pub open spec fn all_bounded(histories: Map<u128, ThreadHistoryView>) -> bool {
    forall|id: u128| histories.contains_key(id) ==> (#[trigger] histories[id]).wf()
}

impl SessionMessageReceivedNotification {
    /// The message that the news is about.
    pub open spec fn received(self) -> MessageView {
        MessageView { sender_thread_id: self.sender_thread_id@, message: self.message@ }
    }
}

impl Default for ReceivedMessageHistory {
    fn default() -> (history: Self)
        ensures
            history@ == Map::<u128, ThreadHistoryView>::empty(),
            all_bounded(history@),
            history.messages_by_thread@ == Map::<u128, ThreadReceivedMessages>::empty(),
    {
        let history = ReceivedMessageHistory { messages_by_thread: HashMap::new() };
        proof {
            assert(history@ =~= Map::empty());
        }
        history
    }
}

impl Default for ThreadReceivedMessages {
    fn default() -> (history: Self)
        ensures
            history@ == ThreadHistoryView::empty(),
            history.messages@.len() == 0 && history.omitted_count == 0,
    {
        let history = ThreadReceivedMessages { messages: VecDeque::new(), omitted_count: 0 };
        proof {
            assert(history@.messages =~= Seq::empty());
        }
        history
    }
}

impl ThreadReceivedMessages {
    /// Takes in one more message.
    fn receive(&mut self, message: ReceivedMessage)
        requires
            old(self)@.can_count(),
        ensures
            final(self)@ == old(self)@.with_message(message@),
    {
        let ghost before = self@;
        let ghost received = message@;
        self.messages.push_front(message);
        proof {
            assert(self@.messages =~= seq![received] + before.messages);
        }
        if self.messages.len() > MAX_MESSAGES_PER_THREAD {
            let _ = self.messages.pop_back();
            self.omitted_count = self.omitted_count + 1;
            proof {
                assert(self@.messages =~= (seq![received] + before.messages).drop_last());
            }
        }
    }
}

impl ReceivedMessageHistory {
    /// Takes in the news of a message. News for a session whose identifier
    /// cannot be read is ignored.
    pub fn record(&mut self, notification: &SessionMessageReceivedNotification)
        requires
            can_record(old(self)@, ThreadId::parsed(notification.thread_id@)),
        ensures
            final(self)@ == with_received(
                old(self)@,
                ThreadId::parsed(notification.thread_id@),
                notification.received(),
            ),
            all_bounded(old(self)@) ==> all_bounded(final(self)@),
    {
        let thread_id = match ThreadId::from_string(notification.thread_id.as_str()) {
            Ok(thread_id) => Some(thread_id),
            Err(_) => None,
        };
        self.record_for(thread_id, notification)
    }

    /// Takes in the news of a message for the session whose identifier was
    /// read as `thread_id`, or could not be read.
    pub fn record_for(
        &mut self,
        thread_id: Option<ThreadId>,
        notification: &SessionMessageReceivedNotification,
    )
        requires
            can_record(old(self)@, thread_id),
        ensures
            final(self)@ == with_received(old(self)@, thread_id, notification.received()),
            all_bounded(old(self)@) ==> all_bounded(final(self)@),
    {
        let thread_id = match thread_id {
            Some(thread_id) => thread_id,
            None => return ,
        };
        let ghost before = self@;
        let thread_history = self.messages_by_thread.entry(thread_id.value).or_insert(
            ThreadReceivedMessages::default(),
        );
        thread_history.receive(
            ReceivedMessage {
                sender_thread_id: notification.sender_thread_id.clone(),
                message: notification.message.clone(),
            },
        );
        proof {
            assert(self@ =~= with_received(before, Some(thread_id), notification.received()));
        }
    }

    /// The lines that show what a session has received, newest first.
    pub fn viewer_lines(&self, thread_id: Option<ThreadId>) -> (shown: Vec<Line<'static>>)
        ensures
            line_views(shown@) == viewer(self@, thread_id),
    {
        let thread_history = match thread_id {
            Some(thread_id) => self.messages_by_thread.get(&thread_id.value),
            None => None,
        };
        let thread_history = match thread_history {
            Some(thread_history) => thread_history,
            None => return nothing_received(),
        };
        if thread_history.messages.len() == 0 {
            return nothing_received();
        }
        let ghost messages = thread_history@.messages;
        let mut shown: Vec<Line<'static>> = Vec::new();
        shown.push(history_disclosure_line(thread_history.omitted_count));
        shown.push(blank_line());
        let ghost head = seq![
            disclosure(thread_history@.omitted_count),
            line_of(Seq::empty()),
        ];
        proof {
            assert(line_views(shown@) =~= head);
            assert(messages.take(0) =~= Seq::empty());
            assert(head + messages_shown(messages.take(0)) =~= head);
        }
        let mut index: usize = 0;
        while index < thread_history.messages.len()
            invariant
                index <= thread_history.messages@.len(),
                messages == thread_history@.messages,
                line_views(shown@) == head + messages_shown(messages.take(index as int)),
            decreases thread_history.messages@.len() - index,
        {
            let ghost before = line_views(shown@);
            proof {
                assert(messages.take(index + 1).drop_last() =~= messages.take(index as int));
                assert(messages.take(index + 1).last() == messages[index as int]);
            }
            if index > 0 {
                shown.push(blank_line());
            }
            let ghost gap = if index > 0 {
                seq![line_of(Seq::empty())]
            } else {
                Seq::empty()
            };
            proof {
                assert(line_views(shown@) =~= before + gap);
            }
            let message = &thread_history.messages[index];
            push_message_lines(&mut shown, message);
            proof {
                assert(line_views(shown@) =~= head + (messages_shown(messages.take(index as int))
                    + gap + message_shown(messages[index as int])));
            }
            index = index + 1;
        }
        proof {
            assert(messages.take(index as int) =~= messages);
        }
        shown
    }

    /// Forgets what a session has received.
    pub fn remove_thread(&mut self, thread_id: ThreadId)
        ensures
            final(self)@ == old(self)@.remove(thread_id.value),
            final(self).messages_by_thread@ == old(self).messages_by_thread@.remove(
                thread_id.value,
            ),
            all_bounded(old(self)@) ==> all_bounded(final(self)@),
    {
        let ghost before = self@;
        let _ = self.messages_by_thread.remove(&thread_id.value);
        proof {
            assert(self@ =~= before.remove(thread_id.value));
        }
    }

    /// Forgets everything.
    pub fn clear(&mut self)
        ensures
            final(self)@ == Map::<u128, ThreadHistoryView>::empty(),
            all_bounded(final(self)@),
            final(self).messages_by_thread@ == Map::<u128, ThreadReceivedMessages>::empty(),
    {
        self.messages_by_thread.clear();
        proof {
            assert(self@ =~= Map::empty());
        }
    }
}

/// The text above the messages: how many are kept, or how many older ones were
/// dropped.
pub open spec fn disclosure_text(omitted_count: nat) -> Seq<char> {
    if omitted_count == 0 {
        "Newest first · up to "@ + decimal(MAX_MESSAGES_PER_THREAD as nat)
            + " messages retained."@
    } else {
        "Newest first · "@ + decimal(omitted_count) + " older "@ + (if omitted_count == 1 {
            "message"@
        } else {
            "messages"@
        }) + " omitted ("@ + decimal(MAX_MESSAGES_PER_THREAD as nat) + "-message cap)."@
    }
}

/// The line above the messages.
pub open spec fn disclosure(omitted_count: nat) -> LineView {
    LineView {
        base: Some(TextStyle::Dim),
        spans: seq![
            SpanView { text: disclosure_text(omitted_count), style: TextStyle::Plain },
        ],
    }
}

/// One line of a message. An empty line has no pieces.
pub open spec fn body_line(line: Seq<char>) -> LineView {
    line_of(
        if line.len() == 0 {
            Seq::empty()
        } else {
            seq![SpanView { text: line, style: TextStyle::Plain }]
        },
    )
}

/// The lines of one message: who sent it, then the message line by line.
pub open spec fn message_shown(message: MessageView) -> Seq<LineView> {
    seq![
        line_of(
            seq![
                SpanView { text: "From session: "@, style: TextStyle::Dim },
                SpanView { text: message.sender_thread_id, style: TextStyle::Cyan },
            ],
        ),
    ] + text_lines(message.message).map_values(|line: Seq<char>| body_line(line))
}

/// The lines of messages, with a blank line between one and the next.
pub open spec fn messages_shown(messages: Seq<MessageView>) -> Seq<LineView>
    decreases messages.len(),
{
    if messages.len() == 0 {
        Seq::empty()
    } else {
        messages_shown(messages.drop_last()) + (if messages.len() > 1 {
            seq![line_of(Seq::empty())]
        } else {
            Seq::empty()
        }) + message_shown(messages.last())
    }
}

/// What is shown when there is nothing to show.
pub open spec fn nothing_shown() -> Seq<LineView> {
    seq![
        line_of(
            seq![
                SpanView {
                    text: "No received messages for this session."@,
                    style: TextStyle::Italic,
                },
            ],
        ),
    ]
}

/// What is shown of the messages that the displayed session has received.
pub open spec fn viewer(
    histories: Map<u128, ThreadHistoryView>,
    thread: Option<ThreadId>,
) -> Seq<LineView> {
    let history = match thread {
        Some(thread) => history_of(histories, thread),
        None => ThreadHistoryView::empty(),
    };
    if history.messages.len() == 0 {
        nothing_shown()
    } else {
        seq![disclosure(history.omitted_count), line_of(Seq::empty())] + messages_shown(
            history.messages,
        )
    }
}

fn nothing_received() -> (shown: Vec<Line<'static>>)
    ensures
        line_views(shown@) == nothing_shown(),
{
    let mut shown: Vec<Line<'static>> = Vec::new();
    shown.push(italic_line("No received messages for this session.".to_owned()));
    proof {
        assert(line_views(shown@) =~= nothing_shown());
    }
    shown
}

proof fn lemma_decimal_has_no_line_feed(value: nat)
    ensures
        !decimal(value).contains('\n'),
    decreases value,
{
    if value >= 10 {
        lemma_decimal_has_no_line_feed(value / 10);
    }
}

proof fn lemma_disclosure_is_one_line(omitted_count: nat)
    ensures
        plain_spans(disclosure_text(omitted_count)) == disclosure(omitted_count).spans,
{
    reveal_strlit("Newest first · up to ");
    reveal_strlit(" messages retained.");
    reveal_strlit("Newest first · ");
    reveal_strlit(" older ");
    reveal_strlit("message");
    reveal_strlit("messages");
    reveal_strlit(" omitted (");
    reveal_strlit("-message cap).");
    lemma_decimal_has_no_line_feed(omitted_count);
    lemma_decimal_has_no_line_feed(MAX_MESSAGES_PER_THREAD as nat);
    let text = disclosure_text(omitted_count);
    assert(!text.contains('\n'));
    lemma_single_line(text);
    assert(plain_spans(text) =~= disclosure(omitted_count).spans);
}

/// The line that says how much of the history is kept.
pub fn history_disclosure_line(omitted_count: usize) -> (line: Line<'static>)
    ensures
        line_view(line) == disclosure(omitted_count as nat),
{
    let text = if omitted_count == 0 {
        let mut text = "Newest first · up to ".to_owned();
        text.append(decimal_text(MAX_MESSAGES_PER_THREAD).as_str());
        text.append(" messages retained.");
        text
    } else {
        let noun = if omitted_count == 1 {
            "message"
        } else {
            "messages"
        };
        let mut text = "Newest first · ".to_owned();
        text.append(decimal_text(omitted_count).as_str());
        text.append(" older ");
        text.append(noun);
        text.append(" omitted (");
        text.append(decimal_text(MAX_MESSAGES_PER_THREAD).as_str());
        text.append("-message cap).");
        text
    };
    proof {
        lemma_disclosure_is_one_line(omitted_count as nat);
    }
    dimmed_line(plain_line(text))
}

/// Shows one message.
fn push_message_lines(shown: &mut Vec<Line<'static>>, message: &ReceivedMessage)
    ensures
        line_views(final(shown)@) == line_views(old(shown)@) + message_shown(message@),
{
    let ghost before = line_views(shown@);
    let ghost body = text_lines(message@.message).map_values(|line: Seq<char>| body_line(line));
    let ghost sender = message_shown(message@)[0];
    shown.push(labelled_line("From session: ".to_owned(), message.sender_thread_id.clone()));
    proof {
        assert(line_views(shown@) =~= before + seq![sender] + body.take(0));
    }
    let lines: Vec<String> = lines(message.message.as_str());
    let mut i: usize = 0;
    while i < lines.len()
        invariant
            i <= lines@.len(),
            texts(lines@) == text_lines(message@.message),
            body == text_lines(message@.message).map_values(|line: Seq<char>| body_line(line)),
            line_views(shown@) == before + seq![sender] + body.take(i as int),
        decreases lines@.len() - i,
    {
        proof {
            assert(texts(lines@)[i as int] == lines@[i as int]@);
            lemma_line_of_lines(message@.message, i as int);
            assert(plain_spans(lines@[i as int]@) =~= body[i as int].spans);
            assert(body.take(i + 1) =~= body.take(i as int).push(body[i as int]));
        }
        let line = plain_line(lines[i].clone());
        proof {
            assert(line_view(line) == body[i as int]);
            assert(line_views(shown@.push(line)) =~= line_views(shown@).push(body[i as int]));
            assert(before + seq![sender] + body.take(i + 1) =~= (before + seq![sender] + body.take(
                i as int,
            )).push(body[i as int]));
        }
        shown.push(line);
        i = i + 1;
    }
    proof {
        assert(body.take(i as int) =~= body);
        assert(before + seq![sender] + body =~= before + message_shown(message@));
    }
}

/// What covers the screen, if anything does.
#[derive(Debug)]
pub enum Overlay {
    /// Lines that do not change, under a title.
    Static { lines: Vec<Line<'static>>, title: String },
}

/// What the terminal user interface keeps for received messages.
#[derive(Debug)]
pub struct App {
    pub received_messages: ReceivedMessageHistory,
    /// The session that is on display, if one is.
    pub displayed_thread_id: Option<ThreadId>,
    pub overlay: Option<Overlay>,
}

impl App {
    /// Takes in the news of a message, unless the session it is for has
    /// dropped as many messages as can be counted.
    pub fn record_received_message(&mut self, notification: &SessionMessageReceivedNotification)
        ensures
            final(self).received_messages@ == if can_record(
                old(self).received_messages@,
                ThreadId::parsed(notification.thread_id@),
            ) {
                with_received(
                    old(self).received_messages@,
                    ThreadId::parsed(notification.thread_id@),
                    notification.received(),
                )
            } else {
                old(self).received_messages@
            },
            all_bounded(old(self).received_messages@) ==> all_bounded(
                final(self).received_messages@,
            ),
            final(self).displayed_thread_id == old(self).displayed_thread_id,
            final(self).overlay == old(self).overlay,
    {
        if let Ok(thread_id) = ThreadId::from_string(notification.thread_id.as_str()) {
            if let Some(history) = self.received_messages.messages_by_thread.get(
                &thread_id.value,
            ) {
                if history.messages.len() >= MAX_MESSAGES_PER_THREAD && history.omitted_count
                    == usize::MAX {
                    return ;
                }
            }
        }
        self.received_messages.record(notification);
    }

    /// Covers the screen with the messages that the displayed session has
    /// received.
    pub fn open_received_messages_overlay(&mut self)
        ensures
            final(self).overlay matches Some(Overlay::Static { lines, title }) && line_views(lines@)
                == viewer(old(self).received_messages@, old(self).displayed_thread_id) && title@
                == "R E C E I V E D"@,
            final(self).received_messages == old(self).received_messages,
            final(self).displayed_thread_id == old(self).displayed_thread_id,
    {
        let lines = self.received_messages.viewer_lines(self.displayed_thread_id);
        self.overlay = Some(Overlay::Static { lines, title: "R E C E I V E D".to_owned() });
    }
}

/// What a session has received after these messages, oldest first.
pub open spec fn after_messages(messages: Seq<MessageView>) -> ThreadHistoryView
    decreases messages.len(),
{
    if messages.len() == 0 {
        ThreadHistoryView::empty()
    } else {
        after_messages(messages.drop_last()).with_message(messages.last())
    }
}

/// However many messages a session receives, the last
/// [`MAX_MESSAGES_PER_THREAD`] of them are kept, newest first, and all others
/// are counted.
pub proof fn newest_messages_are_kept(messages: Seq<MessageView>)
    ensures
        after_messages(messages).wf(),
        after_messages(messages).messages.len() == if messages.len() < MAX_MESSAGES_PER_THREAD {
            messages.len()
        } else {
            MAX_MESSAGES_PER_THREAD as nat
        },
        after_messages(messages).omitted_count + after_messages(messages).messages.len()
            == messages.len(),
        forall|i: int|
            0 <= i < after_messages(messages).messages.len() ==> (
            #[trigger] after_messages(messages).messages[i]) == messages[messages.len() - 1 - i],
    decreases messages.len(),
{
    if messages.len() > 0 {
        newest_messages_are_kept(messages.drop_last());
        let before = after_messages(messages.drop_last());
        assert forall|i: int| 0 <= i < after_messages(messages).messages.len() implies (
        #[trigger] after_messages(messages).messages[i]) == messages[messages.len() - 1 - i] by {
            if i > 0 {
                assert(after_messages(messages).messages[i] == before.messages[i - 1]);
            }
        }
    }
}

/// One thing that can happen to the histories.
pub enum HistoryEvent {
    /// A message was received by a session; `None` if its identifier could not
    /// be read.
    Received { thread: Option<ThreadId>, message: MessageView },
    /// What a session has received was forgotten.
    Removed { forgotten: ThreadId },
    /// Everything was forgotten.
    Cleared,
}

/// The histories after these events, oldest first.
pub open spec fn after_events(events: Seq<HistoryEvent>) -> Map<u128, ThreadHistoryView>
    decreases events.len(),
{
    if events.len() == 0 {
        Map::empty()
    } else {
        let before = after_events(events.drop_last());
        match events.last() {
            HistoryEvent::Received { thread, message } => with_received(before, thread, message),
            HistoryEvent::Removed { forgotten } => before.remove(forgotten.value),
            HistoryEvent::Cleared => Map::empty(),
        }
    }
}

/// The messages that one session has received since it was last forgotten,
/// oldest first.
pub open spec fn messages_for(events: Seq<HistoryEvent>, thread: ThreadId) -> Seq<MessageView>
    decreases events.len(),
{
    if events.len() == 0 {
        Seq::empty()
    } else {
        let before = messages_for(events.drop_last(), thread);
        match events.last() {
            HistoryEvent::Received { thread: receiver, message } => if receiver == Some(thread) {
                before.push(message)
            } else {
                before
            },
            HistoryEvent::Removed { forgotten } => if forgotten == thread {
                Seq::empty()
            } else {
                before
            },
            HistoryEvent::Cleared => Seq::empty(),
        }
    }
}

/// However the messages for several sessions are mixed with each other and with
/// sessions being forgotten, each session's history is that of its own messages
/// since it was last forgotten.
pub proof fn each_session_keeps_its_own_messages(events: Seq<HistoryEvent>, thread: ThreadId)
    ensures
        history_of(after_events(events), thread) == after_messages(messages_for(events, thread)),
        all_bounded(after_events(events)),
    decreases events.len(),
{
    if events.len() > 0 {
        let before = events.drop_last();
        each_session_keeps_its_own_messages(before, thread);
        if let HistoryEvent::Received { thread: receiver, .. } = events.last() {
            if receiver == Some(thread) {
                assert(messages_for(events, thread).drop_last() =~= messages_for(before, thread));
            }
        }
    }
}

proof fn lemma_first_message_is_shown_first(messages: Seq<MessageView>)
    requires
        messages.len() > 0,
    ensures
        message_shown(messages[0]).is_prefix_of(messages_shown(messages)),
    decreases messages.len(),
{
    let before = messages.drop_last();
    if before.len() > 0 {
        lemma_first_message_is_shown_first(before);
        assert(messages_shown(before).is_prefix_of(messages_shown(messages)));
    } else {
        assert(messages_shown(before) =~= Seq::empty());
        assert(messages_shown(messages) =~= message_shown(messages[0]));
    }
}

/// The message that a session received last is shown first, below the line
/// that says how much is kept.
pub proof fn newest_message_is_shown_first(
    histories: Map<u128, ThreadHistoryView>,
    thread: ThreadId,
    message: MessageView,
)
    ensures
        (seq![
            disclosure(history_of(histories, thread).with_message(message).omitted_count),
            line_of(Seq::empty()),
        ] + message_shown(message)).is_prefix_of(
            viewer(with_received(histories, Some(thread), message), Some(thread)),
        ),
{
    let history = history_of(histories, thread).with_message(message);
    assert(history.messages[0] == message);
    lemma_first_message_is_shown_first(history.messages);
}

/// A message changes nothing for any session but the one that received it.
pub proof fn other_sessions_are_left_alone(
    histories: Map<u128, ThreadHistoryView>,
    thread: Option<ThreadId>,
    message: MessageView,
    other: ThreadId,
)
    requires
        thread != Some(other),
    ensures
        history_of(with_received(histories, thread, message), other) == history_of(
            histories,
            other,
        ),
        viewer(with_received(histories, thread, message), Some(other)) == viewer(
            histories,
            Some(other),
        ),
{
}

/// A session that was forgotten shows nothing, and the others show what they
/// did.
pub proof fn forgotten_session_shows_nothing(
    histories: Map<u128, ThreadHistoryView>,
    thread: ThreadId,
    other: ThreadId,
)
    requires
        other != thread,
    ensures
        viewer(histories.remove(thread.value), Some(thread)) == nothing_shown(),
        viewer(histories.remove(thread.value), Some(other)) == viewer(histories, Some(other)),
{
}

/// Nothing is shown when no session is on display, and once everything was
/// forgotten.
pub proof fn nothing_to_show(
    histories: Map<u128, ThreadHistoryView>,
    thread: Option<ThreadId>,
)
    ensures
        viewer(histories, None) == nothing_shown(),
        viewer(Map::empty(), thread) == nothing_shown(),
{
}

/// What a session has received, as it is kept, or nothing.
spec fn kept(history: ReceivedMessageHistory, thread: ThreadId) -> Seq<ReceivedMessage> {
    if history.messages_by_thread@.contains_key(thread.value) {
        history.messages_by_thread@[thread.value].messages@
    } else {
        Seq::empty()
    }
}

/// A message can be recorded unless its session keeps twenty messages and has
/// dropped as many as a `usize` counts. It then comes first, before all that
/// were kept, with its sender; if there were twenty, the last of them goes and
/// is counted. No other session is touched. A message that cannot be recorded
/// changes nothing.
pub proof fn recorded_message_comes_first(
    before: ReceivedMessageHistory,
    after: ReceivedMessageHistory,
    notification: SessionMessageReceivedNotification,
    thread: ThreadId,
)
    requires
        ThreadId::parsed(notification.thread_id@) == Some(thread),
        after@ == if can_record(before@, ThreadId::parsed(notification.thread_id@)) {
            with_received(
                before@,
                ThreadId::parsed(notification.thread_id@),
                notification.received(),
            )
        } else {
            before@
        },
    ensures
        ({
            let (old_by, new_by) = (before.messages_by_thread@, after.messages_by_thread@);
            let id = thread.value;
            let had = if old_by.contains_key(id) {
                old_by[id].messages@
            } else {
                Seq::empty()
            };
            let omitted: int = if old_by.contains_key(id) {
                old_by[id].omitted_count as int
            } else {
                0
            };
            if had.len() >= 20 && omitted == usize::MAX {
                &&& !can_record(before@, Some(thread))
                &&& new_by.dom() == old_by.dom()
                &&& new_by[id].omitted_count == omitted
                &&& new_by[id].messages@.len() == had.len()
                &&& forall|i: int|
                    0 <= i < had.len() ==> (#[trigger] new_by[id].messages@[i]).message@
                        == had[i].message@ && new_by[id].messages@[i].sender_thread_id@
                        == had[i].sender_thread_id@
            } else {
                &&& can_record(before@, Some(thread))
                &&& new_by.dom() == old_by.dom().insert(id)
                &&& new_by[id].omitted_count == omitted + if had.len() >= 20 {
                    1int
                } else {
                    0
                }
                &&& new_by[id].messages@.len() == if had.len() >= 20 {
                    had.len()
                } else {
                    had.len() + 1
                }
                &&& new_by[id].messages@[0].message@ == notification.message@
                &&& new_by[id].messages@[0].sender_thread_id@ == notification.sender_thread_id@
                &&& forall|i: int|
                    0 < i < new_by[id].messages@.len() ==> (
                    #[trigger] new_by[id].messages@[i]).message@ == had[i - 1].message@
                        && new_by[id].messages@[i].sender_thread_id@ == had[i
                        - 1].sender_thread_id@
            }
        }),
        forall|other: u128|
            #![trigger after.messages_by_thread@[other]]
            other != thread.value && before.messages_by_thread@.contains_key(other) ==> {
                let (a, b) = (before.messages_by_thread@[other], after.messages_by_thread@[other]);
                &&& a.omitted_count == b.omitted_count
                &&& a.messages@.len() == b.messages@.len()
                &&& forall|i: int|
                    0 <= i < a.messages@.len() ==> (#[trigger] b.messages@[i]).message@
                        == a.messages@[i].message@ && b.messages@[i].sender_thread_id@
                        == a.messages@[i].sender_thread_id@
            },
{
    let (old_by, new_by) = (before.messages_by_thread@, after.messages_by_thread@);
    let id = thread.value;
    assert(before@.dom() =~= old_by.dom());
    assert(after@.dom() =~= new_by.dom());
    let had = kept(before, thread);
    let old_view = history_of(before@, thread);
    assert(old_view.messages =~= had.map_values(|message: ReceivedMessage| message@));
    if new_by.contains_key(id) {
        let new_history = new_by[id];
        assert(after@[id] == new_history@);
        assert forall|i: int| 0 <= i < new_history.messages@.len() implies (
        #[trigger] new_history.messages@[i])@ == after@[id].messages[i] by {}
        assert(new_history@.messages.len() == new_history.messages@.len());
        assert(old_view.messages.len() == had.len());
    }
    assert forall|other: u128|
        #![trigger after.messages_by_thread@[other]]
        other != thread.value && before.messages_by_thread@.contains_key(other) implies {
        let (a, b) = (before.messages_by_thread@[other], after.messages_by_thread@[other]);
        &&& a.omitted_count == b.omitted_count
        &&& a.messages@.len() == b.messages@.len()
        &&& forall|i: int|
            0 <= i < a.messages@.len() ==> (#[trigger] b.messages@[i]).message@
                == a.messages@[i].message@ && b.messages@[i].sender_thread_id@
                == a.messages@[i].sender_thread_id@
    } by {
        let (a, b) = (before.messages_by_thread@[other], after.messages_by_thread@[other]);
        assert(before@[other] == a@);
        assert(after@[other] == b@);
        assert(a@ == b@);
        assert(a@.messages.len() == a.messages@.len() && b@.messages.len() == b.messages@.len());
        assert forall|i: int| 0 <= i < a.messages@.len() implies (
        #[trigger] b.messages@[i]).message@ == a.messages@[i].message@
            && b.messages@[i].sender_thread_id@ == a.messages@[i].sender_thread_id@ by {
            assert(a@.messages[i] == a.messages@[i]@ && b@.messages[i] == b.messages@[i]@);
        }
    }
}

/// The news among these that are for one session.
pub open spec fn news_for(
    news: Seq<SessionMessageReceivedNotification>,
    thread: ThreadId,
) -> Seq<SessionMessageReceivedNotification> {
    news.filter(
        |one: SessionMessageReceivedNotification| ThreadId::parsed(one.thread_id@) == Some(thread),
    )
}

proof fn lemma_calls_so_far(
    states: Seq<ReceivedMessageHistory>,
    news: Seq<SessionMessageReceivedNotification>,
    thread: ThreadId,
    calls: int,
)
    requires
        states.len() == news.len() + 1,
        news.len() <= usize::MAX,
        !states[0].messages_by_thread@.contains_key(thread.value),
        forall|k: int|
            0 <= k < news.len() ==> (#[trigger] states[k + 1])@ == if can_record(
                states[k]@,
                ThreadId::parsed(news[k].thread_id@),
            ) {
                with_received(
                    states[k]@,
                    ThreadId::parsed(news[k].thread_id@),
                    news[k].received(),
                )
            } else {
                states[k]@
            },
        0 <= calls <= news.len(),
    ensures
        history_of(states[calls]@, thread) == after_messages(
            news_for(news.take(calls), thread).map_values(
                |one: SessionMessageReceivedNotification| one.received(),
            ),
        ),
        news_for(news.take(calls), thread).len() <= calls,
    decreases calls,
{
    reveal(Seq::filter);
    let to_message = |one: SessionMessageReceivedNotification| one.received();
    let so_far = news_for(news.take(calls), thread);
    if calls == 0 {
        assert(so_far.map_values(to_message) =~= Seq::empty());
    } else {
        lemma_calls_so_far(states, news, thread, calls - 1);
        let before = news_for(news.take(calls - 1), thread);
        let one = news[calls - 1];
        assert(news.take(calls).drop_last() =~= news.take(calls - 1));
        assert(states[calls - 1 + 1]@ == states[calls]@);
        newest_messages_are_kept(before.map_values(to_message));
        if ThreadId::parsed(one.thread_id@) == Some(thread) {
            assert(so_far =~= before.push(one));
            assert(so_far.map_values(to_message) =~= before.map_values(to_message).push(
                one.received(),
            ));
            assert(so_far.map_values(to_message).drop_last() =~= before.map_values(to_message));
        } else {
            assert(so_far =~= before);
        }
    }
}

/// However many messages are recorded, for one session or for several in any
/// order, each session keeps the last twenty of its own, newest first, each
/// with its sender, and counts all the others.
pub proof fn last_twenty_messages_of_each_session_are_kept(
    states: Seq<ReceivedMessageHistory>,
    news: Seq<SessionMessageReceivedNotification>,
    thread: ThreadId,
)
    requires
        states.len() == news.len() + 1,
        news.len() <= usize::MAX,
        !states[0].messages_by_thread@.contains_key(thread.value),
        forall|k: int|
            0 <= k < news.len() ==> (#[trigger] states[k + 1])@ == if can_record(
                states[k]@,
                ThreadId::parsed(news[k].thread_id@),
            ) {
                with_received(
                    states[k]@,
                    ThreadId::parsed(news[k].thread_id@),
                    news[k].received(),
                )
            } else {
                states[k]@
            },
        news_for(news, thread).len() > 0,
    ensures
        states.last().messages_by_thread@.contains_key(thread.value),
        ({
            let own = news_for(news, thread);
            let history = states.last().messages_by_thread@[thread.value];
            &&& history.messages@.len() == if own.len() < 20 {
                own.len()
            } else {
                20
            }
            &&& history.omitted_count == own.len() - history.messages@.len()
            &&& forall|i: int|
                0 <= i < history.messages@.len() ==> (#[trigger] history.messages@[i]).message@
                    == own[own.len() - 1 - i].message@ && history.messages@[i].sender_thread_id@
                    == own[own.len() - 1 - i].sender_thread_id@
        }),
{
    let to_message = |one: SessionMessageReceivedNotification| one.received();
    let own = news_for(news, thread);
    lemma_calls_so_far(states, news, thread, news.len() as int);
    assert(news.take(news.len() as int) =~= news);
    newest_messages_are_kept(own.map_values(to_message));
    let last = states.last();
    assert(states[news.len() as int] == last);
    assert(last@.contains_key(thread.value));
    let history = last.messages_by_thread@[thread.value];
    assert(last@[thread.value] == history@);
    assert forall|i: int| 0 <= i < history.messages@.len() implies (
    #[trigger] history.messages@[i]).message@ == own[own.len() - 1 - i].message@
        && history.messages@[i].sender_thread_id@ == own[own.len() - 1 - i].sender_thread_id@ by {
        assert(history@.messages[i] == history.messages@[i]@);
        assert(history@.messages[i] == own.map_values(to_message)[own.len() - 1 - i]);
    }
}

/// The line above the messages says in so many words how many are kept, or how
/// many older ones were dropped. It is dim.
pub proof fn disclosure_says_what_was_dropped(line: Line<'static>, omitted_count: nat)
    requires
        line_view(line) == disclosure(omitted_count),
    ensures
        line_base(line) == Some(TextStyle::Dim),
        line_spans(line).len() == 1,
        line_spans(line)[0].style == TextStyle::Plain,
        line_spans(line)[0].text == if omitted_count == 0 {
            "Newest first · up to 20 messages retained."@
        } else if omitted_count == 1 {
            "Newest first · 1 older message omitted (20-message cap)."@
        } else {
            "Newest first · "@ + decimal(omitted_count)
                + " older messages omitted (20-message cap)."@
        },
{
    reveal_with_fuel(decimal, 3);
    reveal_strlit("Newest first · up to ");
    reveal_strlit(" messages retained.");
    reveal_strlit("Newest first · ");
    reveal_strlit(" older ");
    reveal_strlit("message");
    reveal_strlit("messages");
    reveal_strlit(" omitted (");
    reveal_strlit("-message cap).");
    reveal_strlit("Newest first · up to 20 messages retained.");
    reveal_strlit("Newest first · 1 older message omitted (20-message cap).");
    reveal_strlit(" older messages omitted (20-message cap).");
    assert(decimal(20) =~= seq!['2', '0']);
    assert(decimal(1) =~= seq!['1']);
    let text = disclosure_text(omitted_count);
    if omitted_count == 0 {
        assert(text =~= "Newest first · up to 20 messages retained."@);
    } else if omitted_count == 1 {
        assert(text =~= "Newest first · 1 older message omitted (20-message cap)."@);
    } else {
        assert(text =~= "Newest first · "@ + decimal(omitted_count)
            + " older messages omitted (20-message cap)."@);
    }
}

/// Where the line with the sender of a message stands: behind the two lines at
/// the top, and behind a line for the sender, the lines of the text and a blank
/// line for each message before it.
pub open spec fn place_of(messages: Seq<ReceivedMessage>, at: int) -> int
    decreases at,
{
    if at <= 0 {
        2
    } else {
        place_of(messages, at - 1) + 1 + text_lines(messages[at - 1].message@).len() + 1
    }
}

proof fn lemma_messages_in_place(messages: Seq<ReceivedMessage>, at: int)
    requires
        0 <= at < messages.len(),
    ensures
        ({
            let shown = messages_shown(messages.map_values(|message: ReceivedMessage| message@));
            let place = place_of(messages, at) - 2;
            let entry = message_shown(messages[at]@);
            &&& shown.len() == place_of(messages, messages.len() as int) - 3
            &&& 0 <= place
            &&& place + entry.len() <= shown.len()
            &&& entry.len() == 1 + text_lines(messages[at].message@).len()
            &&& forall|i: int| 0 <= i < entry.len() ==> shown[place + i] == #[trigger] entry[i]
            &&& at > 0 ==> place > 0 && shown[place - 1] == line_of(Seq::empty())
        }),
    decreases messages.len(),
{
    let to_view = |message: ReceivedMessage| message@;
    let views = messages.map_values(to_view);
    let front = messages.drop_last();
    assert(views.drop_last() =~= front.map_values(to_view));
    assert(views.last() == messages.last()@);
    let before = messages_shown(front.map_values(to_view));
    let shown = messages_shown(views);
    let entry = message_shown(messages[at]@);
    if front.len() > 0 {
        lemma_messages_in_place(front, 0);
        assert(place_of(front, front.len() as int) == place_of(messages, messages.len() - 1)) by {
            lemma_place_same(messages, front, front.len() as int);
        }
    } else {
        assert(before =~= Seq::empty());
    }
    if at < front.len() {
        lemma_messages_in_place(front, at);
        lemma_place_same(messages, front, at);
        assert(front[at] == messages[at]);
        let place = place_of(messages, at) - 2;
        assert forall|i: int| 0 <= i < entry.len() implies shown[place + i] == #[trigger] entry[i] by {
            assert(before[place + i] == entry[i]);
            assert(shown[place + i] == before[place + i]);
        }
    } else {
        let place = place_of(messages, at) - 2;
        assert forall|i: int| 0 <= i < entry.len() implies shown[place + i] == #[trigger] entry[i] by {}
    }
}

proof fn lemma_place_same(a: Seq<ReceivedMessage>, b: Seq<ReceivedMessage>, at: int)
    requires
        at <= a.len(),
        at <= b.len(),
        forall|i: int| 0 <= i < at ==> a[i] == b[i],
    ensures
        place_of(a, at) == place_of(b, at),
    decreases at,
{
    if at > 0 {
        lemma_place_same(a, b, at - 1);
    }
}

/// Every message that is kept is shown, wherever it stands in the history: the
/// line with its sender, then all lines of its text, one after another, in the
/// order of the history and with one blank line between one message and the
/// next; `at` is the message and `i` the line of its text. Nothing else is shown but the line that says what was dropped and a
/// blank line below it.
pub proof fn every_kept_message_is_shown_in_full(
    history: ReceivedMessageHistory,
    thread: ThreadId,
    shown: Seq<Line<'static>>,
    at: int,
    i: int,
)
    requires
        line_views(shown) == viewer(history@, Some(thread)),
        history.messages_by_thread@.contains_key(thread.value),
        0 <= at < history.messages_by_thread@[thread.value].messages@.len(),
    ensures
        ({
            let messages = history.messages_by_thread@[thread.value].messages@;
            let place = place_of(messages, at);
            let lines = text_lines(messages[at].message@);
            &&& shown.len() == place_of(messages, messages.len() as int) - 1
            &&& line_view(shown[0]) == disclosure(
                history.messages_by_thread@[thread.value].omitted_count as nat,
            )
            &&& line_spans(shown[1]).len() == 0 && line_base(shown[1]) == Some(TextStyle::Plain)
            &&& 2 <= place && place + lines.len() < shown.len()
            &&& line_base(shown[place]) == Some(TextStyle::Plain)
            &&& line_spans(shown[place]).len() == 2
            &&& line_spans(shown[place])[0].text == "From session: "@
            &&& line_spans(shown[place])[0].style == TextStyle::Dim
            &&& line_spans(shown[place])[1].text == messages[at].sender_thread_id@
            &&& line_spans(shown[place])[1].style == TextStyle::Cyan
            &&& 0 <= i < lines.len() ==> {
                let line = shown[place + 1 + i];
                &&& line_base(line) == Some(TextStyle::Plain)
                &&& lines[i].len() == 0 ==> line_spans(line).len() == 0
                &&& lines[i].len() > 0 ==> line_spans(line).len() == 1 && line_spans(line)[0].text
                    == lines[i] && line_spans(line)[0].style == TextStyle::Plain
            }
            &&& at > 0 ==> line_spans(shown[place - 1]).len() == 0 && line_base(shown[place - 1])
                == Some(TextStyle::Plain)
        }),
{
    let kept = history.messages_by_thread@[thread.value];
    let messages = kept.messages@;
    let views = line_views(shown);
    assert(history@[thread.value] == kept@);
    assert(kept@.messages == messages.map_values(|message: ReceivedMessage| message@));
    lemma_messages_in_place(messages, at);
    let body = messages_shown(kept@.messages);
    let place = place_of(messages, at);
    let lines = text_lines(messages[at].message@);
    let entry = message_shown(messages[at]@);
    assert(views.len() == shown.len());
    assert(views[0] == line_view(shown[0]) && views[1] == line_view(shown[1]));
    assert(entry[0] == body[place - 2 + 0]);
    assert(views[place] == body[place - 2] && views[place] == line_view(shown[place]));
    if 0 <= i < lines.len() {
        assert(entry[i + 1] == body_line(lines[i]));
        assert(body[place - 2 + (i + 1)] == entry[i + 1]);
        assert(views[place + 1 + i] == line_view(shown[place + 1 + i]));
    }
    if at > 0 {
        assert(views[place - 1] == body[place - 3] && views[place - 1] == line_view(
            shown[place - 1],
        ));
    }
}

/// A session without messages, or none at all, shows one line in italics that
/// says so.
pub proof fn session_without_messages_says_so(
    history: ReceivedMessageHistory,
    thread: Option<ThreadId>,
    shown: Seq<Line<'static>>,
)
    requires
        line_views(shown) == viewer(history@, thread),
        thread matches Some(thread) ==> history.messages_by_thread@.contains_key(thread.value)
            ==> history.messages_by_thread@[thread.value].messages@.len() == 0,
    ensures
        shown.len() == 1,
        line_base(shown[0]) == Some(TextStyle::Plain),
        line_spans(shown[0]).len() == 1,
        line_spans(shown[0])[0].text == "No received messages for this session."@,
        line_spans(shown[0])[0].style == TextStyle::Italic,
{
    let views = line_views(shown);
    assert(views.len() == shown.len());
    if let Some(thread) = thread {
        if history.messages_by_thread@.contains_key(thread.value) {
            let kept = history.messages_by_thread@[thread.value];
            assert(history@[thread.value] == kept@);
            assert(kept@.messages.len() == kept.messages@.len());
        }
    }
    assert(views[0] == line_view(shown[0]));
}

} // verus!
