use recall::clipboard_format::{apply_text_format, strip_tracking_pairs, ClipboardFormat};

#[test]
fn transforms_case() {
    assert_eq!(
        apply_text_format("Recall", ClipboardFormat::Uppercase),
        "RECALL"
    );
    assert_eq!(
        apply_text_format("Recall", ClipboardFormat::Lowercase),
        "recall"
    );
}

#[test]
fn converts_smart_quotes() {
    assert_eq!(
        apply_text_format("\u{201C}Hello\u{201D}", ClipboardFormat::ConvertQuotes),
        "\"Hello\""
    );
}

#[test]
fn strips_tracking_params() {
    assert_eq!(
        apply_text_format(
            "https://example.com?a=1&utm_source=x&fbclid=y",
            ClipboardFormat::StripTrackingParams
        ),
        "https://example.com/?a=1"
    );
}

#[test]
fn original_and_plain_text_keep_content() {
    let s = "  <b>Hi</b>  there \u{2019} ";
    assert_eq!(apply_text_format(s, ClipboardFormat::Original), s);
    assert_eq!(apply_text_format(s, ClipboardFormat::PlainText), s);
}

#[test]
fn converts_single_quotes_and_is_idempotent() {
    let once = apply_text_format("\u{2018}it\u{2019}s \u{201E}x\u{201F}", ClipboardFormat::ConvertQuotes);
    assert_eq!(once, "'it's \"x\"");
    assert_eq!(apply_text_format(&once, ClipboardFormat::ConvertQuotes), once);
}

#[test]
fn removes_formatting() {
    let s = "  <p>Hello   <b>world</b></p>  \r\n\n\t  \nsecond\t\tline  ";
    assert_eq!(
        apply_text_format(s, ClipboardFormat::RemoveFormatting),
        "Hello world\nsecond line"
    );
}

#[test]
fn remove_formatting_of_empty_text_is_empty() {
    assert_eq!(apply_text_format(" \n \n", ClipboardFormat::RemoveFormatting), "");
}

#[test]
fn strips_tracking_keeps_plain_words_and_collapses_spaces() {
    assert_eq!(
        apply_text_format(
            "see   https://a.example/x?UTM_medium=m&ref=1&q=2   now",
            ClipboardFormat::StripTrackingParams
        ),
        "see https://a.example/x?q=2 now"
    );
}

#[test]
fn strips_whole_query_when_only_tracking_is_left() {
    assert_eq!(
        apply_text_format(
            "https://example.com/path?gclid=1&mc_cid=2#frag",
            ClipboardFormat::StripTrackingParams
        ),
        "https://example.com/path#frag"
    );
}

#[test]
fn non_url_word_is_kept() {
    assert_eq!(
        apply_text_format("hello?utm_source=x", ClipboardFormat::StripTrackingParams),
        "hello?utm_source=x"
    );
}

#[test]
fn lowercase_uses_unicode_mapping() {
    assert_eq!(apply_text_format("ÄÖÜ", ClipboardFormat::Lowercase), "äöü");
    assert_eq!(apply_text_format("straße", ClipboardFormat::Uppercase), "STRASSE");
}

#[test]
fn tracking_pairs_are_dropped_in_order() {
    let p = |k: &str, v: &str| (k.to_string(), v.to_string());
    let kept = strip_tracking_pairs(&[p("a", "1"), p("UTM_x", "2"), p("Ref", "3"), p("refs", "4"), p("igshid", "5"), p("b", "6")]);
    assert_eq!(kept, vec![p("a", "1"), p("refs", "4"), p("b", "6")]);
}
