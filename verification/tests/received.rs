use ratatui::style::Stylize;
use ratatui::text::Line;

use session_messaging::received_messages::{
    history_disclosure_line, App, Overlay, ReceivedMessageHistory,
    SessionMessageReceivedNotification, MAX_MESSAGES_PER_THREAD,
};
use session_messaging::thread_id::ThreadId;

const RECIPIENT_THREAD_ID: &str = "00000000-0000-4000-8000-000000000001";
const SENDER_THREAD_ID: &str = "00000000-0000-4000-8000-000000000002";

fn recipient_thread_id() -> ThreadId {
    ThreadId::from_string(RECIPIENT_THREAD_ID).expect("valid thread id")
}

fn notification(message: &str) -> SessionMessageReceivedNotification {
    SessionMessageReceivedNotification {
        thread_id: RECIPIENT_THREAD_ID.to_string(),
        turn_id: "turn-1".to_string(),
        sender_thread_id: SENDER_THREAD_ID.to_string(),
        message: message.to_string(),
    }
}

fn sender_line() -> Line<'static> {
    vec!["From session: ".dim(), SENDER_THREAD_ID.cyan()].into()
}

fn app() -> App {
    App {
        received_messages: ReceivedMessageHistory::default(),
        displayed_thread_id: Some(recipient_thread_id()),
        overlay: None,
    }
}

#[test]
fn received_message_history_keeps_newest_entries_in_order() {
    let mut history = ReceivedMessageHistory::default();
    for index in 0..=MAX_MESSAGES_PER_THREAD {
        history.record(&notification(&index.to_string()));
    }

    let thread_history = history
        .messages_by_thread
        .get(&recipient_thread_id().value)
        .expect("thread history");
    let retained = thread_history
        .messages
        .iter()
        .map(|message| message.message.clone())
        .collect::<Vec<_>>();
    let expected = (1..=MAX_MESSAGES_PER_THREAD)
        .rev()
        .map(|index| index.to_string())
        .collect::<Vec<_>>();
    assert_eq!(retained, expected);
    assert_eq!(thread_history.omitted_count, 1);
}

#[test]
fn received_messages_viewer_shows_empty_state() {
    let history = ReceivedMessageHistory::default();

    assert_eq!(
        history.viewer_lines(Some(recipient_thread_id())),
        vec!["No received messages for this session.".italic().into()]
    );
}

#[test]
fn discard_thread_local_state_removes_received_messages() {
    let mut app = app();
    app.record_received_message(&notification("hello"));

    app.received_messages.remove_thread(recipient_thread_id());

    assert_eq!(
        app.received_messages
            .viewer_lines(Some(recipient_thread_id())),
        vec!["No received messages for this session.".italic().into()]
    );
}

#[test]
fn received_messages_viewer_narrow_snapshot() {
    let mut history = ReceivedMessageHistory::default();
    for index in 0..MAX_MESSAGES_PER_THREAD - 1 {
        history.record(&notification(&index.to_string()));
    }
    history.record(&notification("Older message"));
    history.record(&notification("Latest line one\nLatest line two"));

    let lines = history.viewer_lines(Some(recipient_thread_id()));
    let disclosure: Line<'static> =
        Line::from("Newest first \u{b7} 1 older message omitted (20-message cap).").dim();
    let mut expected = vec![
        disclosure,
        Line::default(),
        sender_line(),
        Line::from("Latest line one"),
        Line::from("Latest line two"),
        Line::default(),
        sender_line(),
        Line::from("Older message"),
    ];
    for index in (1..MAX_MESSAGES_PER_THREAD - 1).rev() {
        expected.push(Line::default());
        expected.push(sender_line());
        expected.push(Line::from(index.to_string()));
    }
    assert_eq!(expected.len(), 62);
    assert_eq!(lines, expected);
}

#[test]
fn disclosure_counts_in_words() {
    let text = |omitted: usize| history_disclosure_line(omitted).to_string();
    assert_eq!(text(0), "Newest first \u{b7} up to 20 messages retained.");
    assert_eq!(text(1), "Newest first \u{b7} 1 older message omitted (20-message cap).");
    assert_eq!(text(105), "Newest first \u{b7} 105 older messages omitted (20-message cap).");
    assert_eq!(
        history_disclosure_line(0),
        Line::from("Newest first \u{b7} up to 20 messages retained.").dim()
    );
}

#[test]
fn lines_of_a_message_are_shown_as_they_are() {
    let mut history = ReceivedMessageHistory::default();
    history.record(&notification("one\r\n\ntwo\r\r\nlast\r"));
    let lines = history.viewer_lines(Some(recipient_thread_id()));
    assert_eq!(
        lines[2..],
        [
            sender_line(),
            Line::from("one"),
            Line::default(),
            Line::from("two\r"),
            Line::from("last\r"),
        ]
    );
}

#[test]
fn a_message_without_text_shows_only_its_sender() {
    let mut history = ReceivedMessageHistory::default();
    history.record(&notification(""));
    let lines = history.viewer_lines(Some(recipient_thread_id()));
    assert_eq!(lines[2..], [sender_line()]);
}

#[test]
fn news_for_an_unreadable_session_is_ignored() {
    let mut history = ReceivedMessageHistory::default();
    let mut unreadable = notification("hello");
    unreadable.thread_id = "thread-1".to_string();
    history.record(&unreadable);
    assert!(history.messages_by_thread.is_empty());
    history.record_for(Some(ThreadId::from_u128(5)), &unreadable);
    assert_eq!(history.messages_by_thread.len(), 1);
}

#[test]
fn sessions_are_kept_apart() {
    let mut history = ReceivedMessageHistory::default();
    let mut other = notification("for the other");
    other.thread_id = SENDER_THREAD_ID.to_string();
    history.record(&notification("first"));
    history.record(&other);
    let other_id = ThreadId::from_string(SENDER_THREAD_ID).expect("valid thread id");
    let before = history.viewer_lines(Some(other_id));
    history.record(&notification("second"));
    assert_eq!(history.viewer_lines(Some(other_id)), before);
    history.remove_thread(recipient_thread_id());
    assert_eq!(history.viewer_lines(Some(other_id)), before);
    assert_eq!(history.viewer_lines(None).len(), 1);
    history.clear();
    assert_eq!(history.viewer_lines(Some(other_id)).len(), 1);
}

#[test]
fn a_forgotten_session_starts_over() {
    let mut history = ReceivedMessageHistory::default();
    for index in 0..=MAX_MESSAGES_PER_THREAD {
        history.record(&notification(&index.to_string()));
    }
    history.remove_thread(recipient_thread_id());
    history.record(&notification("after the removal"));
    let id = recipient_thread_id().value;
    assert_eq!(history.messages_by_thread[&id].messages.len(), 1);
    assert_eq!(history.messages_by_thread[&id].omitted_count, 0);
    history.clear();
    history.record(&notification("after the clearing"));
    assert_eq!(history.messages_by_thread[&id].messages.len(), 1);
    assert_eq!(
        history.messages_by_thread[&id].messages[0].message,
        "after the clearing"
    );
}

#[test]
fn overlay_shows_the_displayed_session() {
    let mut app = app();
    app.record_received_message(&notification("hello"));
    app.open_received_messages_overlay();
    let Some(Overlay::Static { lines, title }) = &app.overlay else {
        panic!("an overlay is open");
    };
    assert_eq!(title, "R E C E I V E D");
    assert_eq!(lines[3], Line::from("hello"));
    app.displayed_thread_id = None;
    app.open_received_messages_overlay();
    let Some(Overlay::Static { lines, .. }) = &app.overlay else {
        panic!("an overlay is open");
    };
    assert_eq!(
        *lines,
        vec!["No received messages for this session.".italic().into()]
    );
}

#[test]
fn a_count_at_its_end_keeps_the_history() {
    let mut app = app();
    for index in 0..MAX_MESSAGES_PER_THREAD {
        app.record_received_message(&notification(&index.to_string()));
    }
    let id = recipient_thread_id().value;
    app.received_messages
        .messages_by_thread
        .get_mut(&id)
        .expect("history")
        .omitted_count = usize::MAX;
    app.record_received_message(&notification("one too many"));
    let history = app.received_messages.messages_by_thread.get(&id).expect("history");
    assert_eq!(history.omitted_count, usize::MAX);
    assert_eq!(history.messages[0].message, "19");
}
