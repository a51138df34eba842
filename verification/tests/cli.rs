use astrcode::cli::{
    compact_path, is_image_path, mime_from_filename, normalize_paste, notification_action, placeholder_for_attachment,
    render_notification, resolve_session_id, short_id, slash_help_text, Attachment, ClientNotification,
    NotificationAction,
};
use astrcode::events::EventPayload;

fn notification(payload: EventPayload) -> ClientNotification {
    ClientNotification::Event { session_id: "session-1".into(), payload }
}

fn jsonl_line(kind: &str, key: &str, value: &str) -> Vec<u8> {
    let mut data = serde_json::Map::new();
    data.insert("type".to_string(), serde_json::Value::String(kind.to_string()));
    data.insert(key.to_string(), serde_json::Value::String(value.to_string()));
    let mut line = serde_json::Map::new();
    line.insert("event".to_string(), serde_json::Value::String("event".to_string()));
    line.insert("data".to_string(), serde_json::Value::Object(data));
    serde_json::to_vec(&serde_json::Value::Object(line)).unwrap()
}

#[test]
fn jsonl_output_includes_streaming_delta() {
    let notification = notification(EventPayload::AssistantTextDelta {
        message_id: "message-1".into(),
        delta: "hello".into(),
    });
    let mut out = Vec::new();
    let mut err = Vec::new();
    let line_bytes = jsonl_line("assistant_text_delta", "delta", "hello");

    let action = render_notification(&notification, Some(&line_bytes), &mut out, &mut err).unwrap();

    let line: serde_json::Value = serde_json::from_slice(&out).unwrap();
    assert_eq!(line["event"], "event");
    assert_eq!(line["data"]["type"], "assistant_text_delta");
    assert_eq!(line["data"]["delta"], "hello");
    assert!(err.is_empty());
    assert_eq!(action, NotificationAction::Continue);
}

#[test]
fn jsonl_output_includes_turn_completion_before_finishing() {
    let notification = notification(EventPayload::TurnCompleted { finish_reason: "stop".into() });
    let mut out = Vec::new();
    let mut err = Vec::new();
    let line_bytes = jsonl_line("turn_completed", "finish_reason", "stop");

    let action = render_notification(&notification, Some(&line_bytes), &mut out, &mut err).unwrap();

    let line: serde_json::Value = serde_json::from_slice(&out).unwrap();
    assert_eq!(line["data"]["type"], "turn_completed");
    assert!(err.is_empty());
    assert_eq!(action, NotificationAction::Finish);
}

#[test]
fn text_output_keeps_plain_transcript_behavior() {
    let notification = notification(EventPayload::AssistantTextDelta {
        message_id: "message-1".into(),
        delta: "hello".into(),
    });
    let mut out = Vec::new();
    let mut err = Vec::new();

    let action = render_notification(&notification, None, &mut out, &mut err).unwrap();

    assert_eq!(String::from_utf8(out).unwrap(), "hello");
    assert!(err.is_empty());
    assert_eq!(action, NotificationAction::Continue);
}

#[test]
fn text_output_writes_errors_and_finishes() {
    let mut out = Vec::new();
    let mut err = Vec::new();
    let n = notification(EventPayload::ErrorOccurred { message: "boom".into(), recoverable: false });
    assert_eq!(render_notification(&n, None, &mut out, &mut err).unwrap(), NotificationAction::Finish);
    assert_eq!(String::from_utf8(err.clone()).unwrap(), "Error: boom\n");
    assert!(out.is_empty());
    let done = notification(EventPayload::TurnCompleted { finish_reason: "stop".into() });
    assert_eq!(render_notification(&done, None, &mut out, &mut err).unwrap(), NotificationAction::Finish);
    assert_eq!(String::from_utf8(out).unwrap(), "\n");
    let proto = ClientNotification::Error { message: "bad".into() };
    assert_eq!(notification_action(&proto), NotificationAction::Finish);
    assert_eq!(notification_action(&ClientNotification::Other), NotificationAction::Continue);
}

#[test]
fn short_id_keeps_eight_bytes_at_boundaries() {
    assert_eq!(short_id("0123456789abcdef"), "01234567");
    assert_eq!(short_id("abc"), "abc");
    assert_eq!(short_id("abcdefgé"), "abcdefgé");
    assert_eq!(short_id("abcdefgéxyz"), "abcdefgéxyz");
}

#[test]
fn paste_line_endings_become_newlines() {
    assert_eq!(normalize_paste("a\r\nb\rc\n"), "a\nb\nc\n");
    assert_eq!(normalize_paste("\r\r\n"), "\n\n");
}

#[test]
fn help_lists_commands() {
    let help = slash_help_text();
    assert!(help.starts_with("/new"));
    assert_eq!(help.lines().count(), 5);
    assert!(help.ends_with("exit astrcode"));
}

#[test]
fn session_prefix_resolves_to_known_session() {
    let sessions = vec!["abc123".to_string(), "abd999".to_string()];
    assert_eq!(resolve_session_id(&sessions, " abd "), "abd999");
    assert_eq!(resolve_session_id(&sessions, "ab"), "abc123");
    assert_eq!(resolve_session_id(&sessions, " zz "), "zz");
}

#[test]
fn long_paths_are_compacted() {
    assert_eq!(compact_path("/home/user/projects/astrcode"), "/.../projects/astrcode");
    assert_eq!(compact_path("C:\\Users\\me\\code\\repo"), "C:/.../code/repo");
    assert_eq!(compact_path("a/b/c"), "a/b/c");
    assert_eq!(compact_path("rel/one/two/three"), "rel/.../two/three");
}

#[test]
fn image_paths_and_media_types() {
    assert!(is_image_path("  shot.PNG "));
    assert!(is_image_path("/tmp/x.jpeg"));
    assert!(!is_image_path("notes.txt"));
    assert!(!is_image_path(".png"));
    assert_eq!(mime_from_filename("a.JPG"), "image/jpeg");
    assert_eq!(mime_from_filename("a.webp"), "image/webp");
    assert_eq!(mime_from_filename("a.bmp"), "image/bmp");
    assert_eq!(mime_from_filename("a"), "image/png");
    let att = Attachment { filename: "a.png".into(), content: String::new(), media_type: "image/png".into() };
    assert_eq!(placeholder_for_attachment(2, &att), "[Image 2: a.png]");
}
