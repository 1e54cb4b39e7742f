//! Notifications.

use pc_bridge::notification::{
    escape_xml, gdbus_notify, notify_send, toast_xml, NotificationPayload,
};
use serde_json::Value;

/// Reads a payload, with the notification that it spells as JSON.
fn from_payload(payload: &str) -> NotificationPayload {
    let parsed = serde_json::from_str::<Value>(payload).ok().map(|v| NotificationPayload {
        title: v["title"].as_str().unwrap_or_default().to_string(),
        message: v["message"].as_str().unwrap_or_default().to_string(),
    });
    NotificationPayload::from_payload(payload, parsed)
}

#[test]
fn test_payload_parsing_json() {
    let json = r#"{"title": "Test", "message": "Hello world"}"#;
    let payload = from_payload(json);
    assert_eq!(payload.title, "Test");
    assert_eq!(payload.message, "Hello world");
}

#[test]
fn test_payload_parsing_plain_text() {
    let text = "Just a plain message";
    let payload = from_payload(text);
    assert_eq!(payload.title, "");
    assert_eq!(payload.message, "Just a plain message");
}

#[test]
fn test_xml_escaping() {
    assert_eq!(escape_xml("Hello & World"), "Hello &amp; World");
    assert_eq!(escape_xml("<script>"), "&lt;script&gt;");
}

#[test]
fn control_characters_are_left_out() {
    assert_eq!(escape_xml("a\u{0}b\u{1b}c\td\ne\rf"), "abc\td\ne\rf");
    assert_eq!(escape_xml("'\""), "&apos;&quot;");
    assert_eq!(escape_xml("\u{7f}\u{20AC}"), "\u{7f}\u{20AC}");
}

#[test]
fn a_notification_without_title_or_message() {
    let text = "Just a plain message";
    assert_eq!(
        from_payload(text).shown(text),
        ("Home Assistant".to_string(), text.to_string())
    );
    let json = r#"{"title": "T"}"#;
    assert_eq!(
        from_payload(json).shown(json),
        ("T".to_string(), json.to_string())
    );
}

#[test]
fn the_toast_holds_the_escaped_texts() {
    assert_eq!(
        toast_xml("A&B", "x<y"),
        "<toast>
            <visual>
                <binding template=\"ToastText02\">
                    <text id=\"1\">A&amp;B</text>
                    <text id=\"2\">x&lt;y</text>
                </binding>
            </visual>
        </toast>"
    );
}

#[test]
fn the_tools_are_given_the_texts() {
    let i = notify_send("T", "M");
    assert_eq!(i.program, "notify-send");
    assert_eq!(
        i.args,
        ["--app-name=PC Bridge", "--icon=dialog-information", "T", "M"]
    );
    let i = gdbus_notify("T", "M");
    assert_eq!(i.program, "gdbus");
    assert_eq!(i.args.len(), 13);
    assert_eq!(i.args[8..10], ["T", "M"]);
}
