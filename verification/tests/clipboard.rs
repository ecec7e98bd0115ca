use base64::Engine;
use recall::clipboard::{
    image_content, needs_store, process_image, process_text, read_failure_worth_reporting, read_fits_memory_exec,
    window_context, ClipboardContent, ClipboardRead, RawImage, WatchAction, WatcherState,
};
use recall::config::ClipboardConfig;
use recall::events::{EventPayload, EventSource};

fn cfg() -> ClipboardConfig {
    ClipboardConfig::from_env(&[])
}

fn hash_of(text: &str) -> String {
    format!("{:016x}", xxhash_rust::xxh3::xxh3_64(text.as_bytes()))
}

#[test]
fn processes_trimmed_text() {
    match process_text("  hello \n", &cfg()) {
        Some(ClipboardContent::Text { hash, content, is_truncated }) => {
            assert_eq!(content, "hello");
            assert!(!is_truncated);
            assert_eq!(hash, hash_of("hello"));
        }
        _ => panic!("expected text"),
    }
}

#[test]
fn ignores_empty_and_own_identifiers() {
    assert!(process_text(" \t\n", &cfg()).is_none());
    assert!(process_text("clipboard_3", &cfg()).is_none());
}

#[test]
fn truncates_long_text_by_characters() {
    let mut c = cfg();
    c.max_payload_bytes = 4;
    c.preview_chars = 3;
    match process_text("ééé é", &c) {
        Some(ClipboardContent::Text { content, is_truncated, hash }) => {
            assert!(is_truncated);
            assert_eq!(content, "ééé");
            assert_eq!(hash, hash_of("ééé é"));
        }
        _ => panic!("expected text"),
    }
}

#[test]
fn processes_images() {
    let img = RawImage { width: 2, height: 1, rgba: vec![255, 0, 0, 255, 0, 0, 255, 255] };
    match process_image(img, &cfg()) {
        Some(ClipboardContent::Image { hash, png_bytes, preview_url }) => {
            assert_eq!(&png_bytes[1..4], b"PNG");
            assert_eq!(hash, format!("{:016x}", xxhash_rust::xxh3::xxh3_64(&png_bytes)));
            assert!(preview_url.starts_with("data:image/png;base64,iVBORw0KGgo"));
        }
        _ => panic!("expected image"),
    }
}

#[test]
fn rejects_badly_sized_images() {
    assert!(process_image(RawImage { width: 2, height: 2, rgba: vec![0; 15] }, &cfg()).is_none());
    assert!(process_image(RawImage { width: 0, height: 0, rgba: vec![] }, &cfg()).is_none());
    assert!(process_image(RawImage { width: u32::MAX, height: 2, rgba: vec![] }, &cfg()).is_none());
}

#[test]
fn to_event_records_content() {
    let c = process_text("x", &cfg()).unwrap();
    let e = c.to_event(Some("Terminal".to_string()), Some("win".to_string()));
    assert_eq!(e.source, EventSource::Clipboard);
    assert_eq!(e.id.len(), 36);
    assert_eq!(e.source_app.as_deref(), Some("Terminal"));
    assert_eq!(e.window_title.as_deref(), Some("win"));
    assert!(!e.pinned);
    match e.payload {
        EventPayload::ClipboardText { content, is_truncated, content_hash } => {
            assert_eq!(content, "x");
            assert!(!is_truncated);
            assert_eq!(content_hash, hash_of("x"));
        }
        _ => panic!("expected text payload"),
    }
}

#[test]
fn watcher_emits_new_content_once() {
    let mut w = WatcherState::new();
    let c = cfg();
    assert!(matches!(w.observe(ClipboardRead::Text("a".to_string()), &c), WatchAction::Emit(_)));
    assert!(matches!(w.observe(ClipboardRead::Text(" a ".to_string()), &c), WatchAction::Skip));
    assert!(matches!(w.observe(ClipboardRead::Text("b".to_string()), &c), WatchAction::Emit(_)));
    assert!(matches!(w.observe(ClipboardRead::Text("".to_string()), &c), WatchAction::Skip));
    assert_eq!(w.last_hash, Some(xxhash_rust::xxh3::xxh3_64(b"b")));
    match w.observe(ClipboardRead::Unavailable("boom".to_string()), &c) {
        WatchAction::ReadFailed { log } => assert!(log),
        _ => panic!("expected failure"),
    }
    assert_eq!(w.last_hash, None);
    assert!(matches!(w.observe(ClipboardRead::Text("b".to_string()), &c), WatchAction::Emit(_)));
}

#[test]
fn watcher_remembers_images_by_png_hash() {
    let mut w = WatcherState::new();
    let c = cfg();
    let img = || RawImage { width: 1, height: 1, rgba: vec![1, 2, 3, 4] };
    assert!(matches!(w.observe(ClipboardRead::Image(img()), &c), WatchAction::Emit(_)));
    assert!(matches!(w.observe(ClipboardRead::Image(img()), &c), WatchAction::Skip));
    let bad = RawImage { width: 1, height: 1, rgba: vec![1] };
    assert!(matches!(w.observe(ClipboardRead::Image(bad), &c), WatchAction::ImageUnprocessable));
}

#[test]
fn ordinary_read_failures_are_not_reported() {
    assert!(!read_failure_worth_reporting("The clipboard contents were not available in the requested format"));
    assert!(!read_failure_worth_reporting("no NSPasteboardTypeString"));
    assert!(!read_failure_worth_reporting("NSPasteboard#types empty"));
    assert!(read_failure_worth_reporting("X11 server connection lost"));
}

fn preview_size(preview_url: &str) -> (u32, u32) {
    let b64 = preview_url.strip_prefix("data:image/png;base64,").unwrap();
    let png = base64::engine::general_purpose::STANDARD.decode(b64).unwrap();
    assert_eq!(&png[0..8], &[137, 80, 78, 71, 13, 10, 26, 10]);
    assert_eq!(&png[12..16], b"IHDR");
    (u32::from_be_bytes(png[16..20].try_into().unwrap()), u32::from_be_bytes(png[20..24].try_into().unwrap()))
}

#[test]
fn previews_fit_the_configured_square() {
    let mut c = cfg();
    c.preview_max_dim = 4;
    let img = RawImage { width: 8, height: 2, rgba: vec![7; 8 * 2 * 4] };
    match process_image(img, &c) {
        Some(ClipboardContent::Image { preview_url, .. }) => assert_eq!(preview_size(&preview_url), (4, 1)),
        _ => panic!("expected image"),
    }
    let img = RawImage { width: 3, height: 7, rgba: vec![1; 3 * 7 * 4] };
    match process_image(img, &c) {
        Some(ClipboardContent::Image { preview_url, .. }) => assert_eq!(preview_size(&preview_url), (2, 4)),
        _ => panic!("expected image"),
    }
    let img = RawImage { width: 1, height: 1, rgba: vec![5; 4] };
    match process_image(img, &c) {
        Some(ClipboardContent::Image { preview_url, .. }) => assert_eq!(preview_size(&preview_url), (4, 4)),
        _ => panic!("expected image"),
    }
    c.preview_max_dim = 0;
    let img = RawImage { width: 3, height: 5, rgba: vec![9; 3 * 5 * 4] };
    match process_image(img, &c) {
        Some(ClipboardContent::Image { preview_url, .. }) => assert_eq!(preview_size(&preview_url), (1, 1)),
        _ => panic!("expected image"),
    }
}

#[test]
fn image_content_encodes_the_preview() {
    match image_content(vec![1, 2, 3], &[0, 1, 2, 3]) {
        ClipboardContent::Image { hash, png_bytes, preview_url } => {
            assert_eq!(png_bytes, vec![1, 2, 3]);
            assert_eq!(preview_url, "data:image/png;base64,AAECAw==");
            assert_eq!(hash, format!("{:016x}", xxhash_rust::xxh3::xxh3_64(&[1, 2, 3])));
        }
        _ => panic!("expected image"),
    }
}

#[test]
fn window_context_is_trimmed() {
    assert_eq!(window_context("  Terminal\n").as_deref(), Some("Terminal"));
    assert_eq!(window_context(" \n"), None);
}

#[test]
fn memory_bound_on_previews() {
    let c = cfg();
    assert!(read_fits_memory_exec(&ClipboardRead::Text("x".to_string()), &c));
    assert!(read_fits_memory_exec(&ClipboardRead::Image(RawImage { width: 1, height: 1, rgba: vec![0; 4] }), &c));
    let mut huge = cfg();
    huge.preview_max_dim = u32::MAX;
    assert!(!read_fits_memory_exec(&ClipboardRead::Image(RawImage { width: 1, height: 1, rgba: vec![0; 4] }), &huge));
    assert!(read_fits_memory_exec(&ClipboardRead::Image(RawImage { width: 1, height: 1, rgba: vec![0; 3] }), &huge));
}

#[test]
fn store_decision() {
    assert!(!needs_store::<()>(&Ok(true)));
    assert!(needs_store::<()>(&Ok(false)));
    assert!(needs_store(&Err("lookup failed")));
}

#[test]
fn watcher_forgets_after_failure_over_a_stream() {
    let mut w = WatcherState::new();
    let c = cfg();
    let polls = ["a", "a", "", "a"];
    let mut stored = Vec::new();
    for p in polls {
        let read = if p.is_empty() {
            ClipboardRead::Unavailable("gone".to_string())
        } else {
            ClipboardRead::Text(p.to_string())
        };
        stored.push(matches!(w.observe(read, &c), WatchAction::Emit(_)));
    }
    assert_eq!(stored, vec![true, false, false, true]);
}
