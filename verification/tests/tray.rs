use recall::record::EventRecord;
use recall::tray::{clip_item_id_of, entry_label_of, entry_text_of, parse_menu_command, tray_entries, tray_menu, MenuCommand};

fn rec(payload: &str, source_app: Option<&str>) -> EventRecord {
    EventRecord {
        id: "id".to_string(),
        timestamp: 0,
        source: "clipboard".to_string(),
        payload_type: "clipboard_image".to_string(),
        payload_data: payload.to_string(),
        window_title: None,
        source_app: source_app.map(|s| s.to_string()),
        content_hash: None,
        pinned: true,
        created_at: 0,
        classification: None,
    }
}

#[test]
fn menu_ids_roundtrip() {
    for i in [0usize, 7, 12345] {
        assert_eq!(parse_menu_command(&clip_item_id_of(i)), MenuCommand::CopyPinned(i));
    }
    assert_eq!(clip_item_id_of(3), "clipboard_3");
    assert_eq!(parse_menu_command("quit"), MenuCommand::Quit);
    assert_eq!(parse_menu_command("clipboard_x"), MenuCommand::Ignored);
    assert_eq!(parse_menu_command("clipboard_"), MenuCommand::Ignored);
    assert_eq!(parse_menu_command("settings"), MenuCommand::Unhandled);
}

#[test]
fn entry_texts() {
    assert_eq!(entry_text_of(&rec(r#"{"content":"hi"}"#, Some("App"))), "hi");
    assert_eq!(entry_text_of(&rec(r#"{"content_hash":"h"}"#, Some("App"))), "Image | App");
    assert_eq!(entry_text_of(&rec("not json", None)), "clipboard_image");
}

#[test]
fn entry_labels() {
    assert_eq!(entry_label_of(0, "short text"), "1. short text");
    assert_eq!(entry_label_of(9, "abcdefghijklmnopqrstuvwxyz"), "10. abcdefghijklmnopqrstuv...");
    assert_eq!(entry_label_of(1, "abcdefghijklmnopqrstuvwxy"), "2. abcdefghijklmnopqrstuvwxy");
}

#[test]
fn tray_entries_in_order() {
    let records = vec![rec(r#"{"content":"one"}"#, None), rec(r#"{"content":"two"}"#, None)];
    let entries = tray_entries(&records).unwrap();
    let pairs: Vec<(String, String, bool)> = entries.into_iter().map(|e| (e.id, e.label, e.enabled)).collect();
    assert_eq!(
        pairs,
        vec![
            ("clipboard_0".to_string(), "1. one".to_string(), true),
            ("clipboard_1".to_string(), "2. two".to_string(), true)
        ]
    );
    let cut = rec(r#"{"content":"aaaaaaaaaaaaaaaaaaaaaéééé"}"#, None);
    assert!(tray_entries(&[cut]).is_none());
}

#[test]
fn tray_menu_ends_with_quit() {
    let empty = tray_menu(&[]).unwrap();
    assert_eq!(empty.len(), 2);
    assert_eq!((empty[0].id.as_str(), empty[0].label.as_str(), empty[0].enabled), ("no_clipboard", "No clipboard items", false));
    assert_eq!((empty[1].id.as_str(), empty[1].label.as_str(), empty[1].enabled), ("quit", "Quit", true));
    let menu = tray_menu(&[rec(r#"{"content":"x"}"#, None)]).unwrap();
    assert_eq!(menu.len(), 2);
    assert_eq!(menu[0].label, "1. x");
    assert_eq!(menu[1].id, "quit");
}
