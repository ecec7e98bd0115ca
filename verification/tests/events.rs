use recall::events::{Event, EventPayload, EventSource};
use recall::record::{blob_for, record_for};

fn text_payload() -> EventPayload {
    EventPayload::ClipboardText { content: "git push".to_string(), is_truncated: false, content_hash: "h1".to_string() }
}

#[test]
fn source_names_roundtrip() {
    assert_eq!(EventSource::Clipboard.as_str(), "clipboard");
    assert_eq!(EventSource::from_str("clipboard"), Some(EventSource::Clipboard));
    assert_eq!(EventSource::from_str("Clipboard"), None);
}

#[test]
fn new_events_are_fresh_and_unpinned() {
    let a = Event::new(EventSource::Clipboard, text_payload());
    let b = Event::new(EventSource::Clipboard, text_payload());
    assert_eq!(a.id.len(), 36);
    for (i, c) in a.id.chars().enumerate() {
        if [8, 13, 18, 23].contains(&i) {
            assert_eq!(c, '-');
        } else {
            assert!(c.is_ascii_digit() || ('a'..='f').contains(&c));
        }
    }
    assert_eq!(a.id.chars().nth(14), Some('4'));
    assert!(matches!(a.id.chars().nth(19), Some('8' | '9' | 'a' | 'b')));
    assert_ne!(a.id, b.id);
    assert!(!a.pinned && a.window_title.is_none() && a.source_app.is_none());
    assert!(a.timestamp > 1_600_000_000_000);
    assert_eq!(a.payload.payload_type(), "clipboard_text");
}

#[test]
fn with_context_sets_only_context() {
    let e = Event::from_parts("x".to_string(), 5, EventSource::Clipboard, text_payload())
        .with_context(Some("title".to_string()), Some("app".to_string()));
    assert_eq!(e.id, "x");
    assert_eq!(e.timestamp, 5);
    assert_eq!(e.window_title.as_deref(), Some("title"));
    assert_eq!(e.source_app.as_deref(), Some("app"));
}

#[test]
fn records_and_blobs() {
    let e = Event::from_parts("x".to_string(), 5, EventSource::Clipboard, text_payload());
    let r = record_for(&e, "{}".to_string(), 9);
    assert_eq!(r.id, "x");
    assert_eq!(r.source, "clipboard");
    assert_eq!(r.payload_type, "clipboard_text");
    assert_eq!(r.content_hash.as_deref(), Some("h1"));
    assert_eq!(r.classification.as_deref(), Some("command"));
    assert_eq!(r.created_at, 9);
    assert!(blob_for(&e).is_none());

    let img = Event::from_parts(
        "y".to_string(),
        6,
        EventSource::Clipboard,
        EventPayload::ClipboardImage {
            content_hash: "h2".to_string(),
            mime: "image/png".to_string(),
            preview: None,
            data: Some(vec![1, 2, 3]),
        },
    );
    let r = record_for(&img, "{}".to_string(), 9);
    assert_eq!(r.payload_type, "clipboard_image");
    assert_eq!(r.classification.as_deref(), Some("image"));
    let b = blob_for(&img).unwrap();
    assert_eq!((b.content_hash.as_str(), b.mime.as_str(), b.data.as_slice()), ("h2", "image/png", &[1u8, 2, 3][..]));
}
