use recall::clipboard_format::ClipboardFormat;
use recall::record::EventRecord;
use recall::clipboard::{process_image, ClipboardContent, RawImage};
use recall::config::ClipboardConfig;
use recall::service::{clipboard_image_of, image_output, plan_clipboard_output, ClipboardOutput, OutputPlan};

fn rec(payload_type: &str, payload: &str, hash: Option<&str>) -> EventRecord {
    EventRecord {
        id: "ev1".to_string(),
        timestamp: 0,
        source: "clipboard".to_string(),
        payload_type: payload_type.to_string(),
        payload_data: payload.to_string(),
        window_title: None,
        source_app: None,
        content_hash: hash.map(|h| h.to_string()),
        pinned: false,
        created_at: 0,
        classification: None,
    }
}

fn code(r: Result<OutputPlan, recall::error::AppError>) -> String {
    match r {
        Err(e) => e.code,
        Ok(_) => "OK".to_string(),
    }
}

#[test]
fn missing_event() {
    match plan_clipboard_output("abc", None, ClipboardFormat::Original) {
        Err(e) => {
            assert_eq!(e.code, "NOT_FOUND");
            assert_eq!(e.details.as_deref(), Some("abc"));
        }
        Ok(_) => panic!("expected error"),
    }
}

#[test]
fn text_output_is_formatted() {
    let r = rec("clipboard_text", r#"{"type":"clipboard_text","content":"Hello"}"#, None);
    match plan_clipboard_output("ev1", Some(r), ClipboardFormat::Uppercase) {
        Ok(OutputPlan::Ready(ClipboardOutput::Text(t))) => assert_eq!(t, "HELLO"),
        _ => panic!("expected text"),
    }
    let r = rec("clipboard_text", r#"{"other":1}"#, None);
    match plan_clipboard_output("ev1", Some(r), ClipboardFormat::Original) {
        Ok(OutputPlan::Ready(ClipboardOutput::Text(t))) => assert_eq!(t, r#"{"other":1}"#),
        _ => panic!("expected text"),
    }
}

#[test]
fn bad_payload() {
    let r = rec("clipboard_text", "{oops", None);
    assert_eq!(code(plan_clipboard_output("ev1", Some(rec("clipboard_text", "{oops", None)), ClipboardFormat::Original)), "SERIALIZATION_ERROR");
    let expected = serde_json::from_str::<serde_json::Value>("{oops").unwrap_err().to_string();
    match plan_clipboard_output("ev1", Some(r), ClipboardFormat::Original) {
        Err(e) => assert_eq!(e.details, Some(expected)),
        _ => panic!("expected an error"),
    }
}

#[test]
fn images() {
    let r = rec("clipboard_image", r#"{"content_hash":"abc"}"#, Some("zzz"));
    match plan_clipboard_output("ev1", Some(r), ClipboardFormat::Original) {
        Ok(OutputPlan::LoadImage(h)) => assert_eq!(h, "abc"),
        _ => panic!("expected image"),
    }
    let r = rec("clipboard_image", r#"{}"#, Some("zzz"));
    match plan_clipboard_output("ev1", Some(r), ClipboardFormat::Original) {
        Ok(OutputPlan::LoadImage(h)) => assert_eq!(h, "zzz"),
        _ => panic!("expected image"),
    }
    let r = rec("clipboard_image", r#"{}"#, None);
    assert_eq!(code(plan_clipboard_output("ev1", Some(r), ClipboardFormat::Original)), "MISSING_IMAGE");
    let r = rec("clipboard_image", r#"{}"#, Some("zzz"));
    assert_eq!(code(plan_clipboard_output("ev1", Some(r), ClipboardFormat::Lowercase)), "UNSUPPORTED_FORMAT");
}

#[test]
fn image_blob_lookup() {
    match image_output("h", Some(("image/png".to_string(), vec![9, 8]))) {
        Ok(ClipboardOutput::Image(b)) => assert_eq!(b, vec![9, 8]),
        _ => panic!("expected bytes"),
    }
    match image_output("h", None) {
        Err(e) => {
            assert_eq!(e.code, "MISSING_IMAGE");
            assert_eq!(e.message, "Image blob not found");
            assert_eq!(e.details.as_deref(), Some("h"));
        }
        Ok(_) => panic!("expected error"),
    }
}

#[test]
fn stored_images_decode_to_their_pixels() {
    let pixels = vec![255, 0, 0, 255, 0, 255, 0, 128];
    let png = match process_image(RawImage { width: 2, height: 1, rgba: pixels.clone() }, &ClipboardConfig::from_env(&[])) {
        Some(ClipboardContent::Image { png_bytes, .. }) => png_bytes,
        _ => panic!("expected image"),
    };
    let img = clipboard_image_of(&png).unwrap();
    assert_eq!((img.width, img.height), (2, 1));
    assert_eq!(img.rgba, pixels);
}

#[test]
fn undecodable_images_are_image_errors() {
    let e = clipboard_image_of(&[1, 2, 3]).unwrap_err();
    assert_eq!(e.code, "IMAGE_ERROR");
    assert_eq!(e.message, "Failed to decode image clip");
    assert_eq!(e.details, Some(image::load_from_memory(&[1, 2, 3]).unwrap_err().to_string()));
}
