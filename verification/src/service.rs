//! The decisions of the event service that do not touch the database:
//! what to copy to the clipboard for a stored event.
use vstd::prelude::*;

use crate::clipboard::RawImage;
use crate::clipboard_format::{apply_text_format, formatted_text, ClipboardFormat};
use crate::error::AppError;
use crate::record::EventRecord;
use crate::text::{chars_of, contains_chars, contains_seq};

verus! {

/// What `serde_json::from_str::<serde_json::Value>` reports for `text`:
/// `None` where it accepts the text, otherwise the text of its error (the
/// error's message with the line and column where parsing stopped).
pub uninterp spec fn json_parse_error(text: Seq<char>) -> Option<Seq<char>>;

/// Whether `serde_json::from_str::<serde_json::Value>` accepts `text`.
pub open spec fn json_parses(text: Seq<char>) -> bool {
    json_parse_error(text) is None
}

/// The string member `key` of the JSON value that `text` parses to
/// (`Value::get` then `Value::as_str`): `None` where the value is not an
/// object, has no such member, or the member is not a string.
pub uninterp spec fn json_str_member(text: Seq<char>, key: Seq<char>) -> Option<Seq<char>>;

/// Parses `text` with `serde_json::from_str::<serde_json::Value>` and
/// reads the string member `key`. On a parse error it gives the error's
/// text (`Display` of `serde_json::Error`), named by `json_parse_error`.
#[verifier::external_body]
pub(crate) fn json_string_member(text: &str, key: &str) -> (r: Result<Option<String>, String>)
    ensures
        r is Ok <==> json_parses(text@),
        r matches Err(msg) ==> json_parse_error(text@) == Some(msg@),
        r matches Ok(m) ==> match m {
            Some(s) => json_str_member(text@, key@) == Some(s@),
            None => json_str_member(text@, key@) is None,
        },
{
    match serde_json::from_str::<serde_json::Value>(text) {
        Ok(v) => match v.get(key) {
            Some(m) => Ok(m.as_str().map(String::from)),
            None => Ok(None),
        },
        Err(e) => Err(e.to_string()),
    }
}

/// What `image::load_from_memory` followed by `DynamicImage::to_rgba8`
/// gives for `bytes`: the width, the height and the RGBA pixels, or, where
/// the bytes are not an image the crate decodes, the text of its error.
pub uninterp spec fn decoded_rgba(bytes: Seq<u8>) -> Result<(u32, u32, Seq<u8>), Seq<char>>;

/// Decodes `bytes` with `image::load_from_memory` and converts the image to
/// 8-bit RGBA with `to_rgba8`; the result, or the text (`Display`) of the
/// `image::ImageError`, is named by `decoded_rgba`, and an RGBA buffer
/// holds four bytes per pixel.
#[verifier::external_body]
fn decode_rgba(bytes: &[u8]) -> (r: Result<RawImage, String>)
    ensures
        match r {
            Ok(i) => decoded_rgba(bytes@) == Ok::<(u32, u32, Seq<u8>), Seq<char>>((i.width, i.height, i.rgba@))
                && i.rgba@.len() == i.width * i.height * 4,
            Err(msg) => decoded_rgba(bytes@) == Err::<(u32, u32, Seq<u8>), Seq<char>>(msg@),
        },
{
    match image::load_from_memory(bytes) {
        Ok(img) => {
            let rgba = img.to_rgba8();
            let (width, height) = rgba.dimensions();
            Ok(RawImage { width, height, rgba: rgba.into_raw() })
        },
        Err(e) => Err(e.to_string()),
    }
}

/// The pixels to write to the clipboard for the stored image `bytes`: the
/// decoded image, or an `IMAGE_ERROR` whose details are the decoder's
/// error text.
pub fn clipboard_image_of(bytes: &[u8]) -> (r: Result<RawImage, AppError>)
    ensures
        match decoded_rgba(bytes@) {
            Ok((w, h, px)) => r matches Ok(i) && i.width == w && i.height == h && i.rgba@ == px,
            Err(msg) => r matches Err(e) && error_with_details(
                e,
                "IMAGE_ERROR"@,
                "Failed to decode image clip"@,
                msg,
            ),
        },
{
    match decode_rgba(bytes) {
        Ok(img) => Ok(img),
        Err(msg) => Err(AppError::new("IMAGE_ERROR", "Failed to decode image clip", Some(msg))),
    }
}

/// What is written to the clipboard.
#[derive(Debug)]
pub enum ClipboardOutput {
    Text(String),
    Image(Vec<u8>),
}

/// What copying a stored event needs next.
#[derive(Debug)]
pub enum OutputPlan {
    /// Load the image blob stored under this hash.
    LoadImage(String),
    /// Write this output.
    Ready(ClipboardOutput),
}

/// Whether a stored event holds an image.
pub open spec fn is_image_record(rec: EventRecord) -> bool {
    contains_seq(rec.payload_type@, "image"@)
}

/// The hash of an image event: the payload's `content_hash` member, or the
/// record's own hash.
pub open spec fn image_hash_of(rec: EventRecord) -> Option<Seq<char>> {
    match json_str_member(rec.payload_data@, "content_hash"@) {
        Some(h) => Some(h),
        None => match rec.content_hash {
            Some(h) => Some(h@),
            None => None,
        },
    }
}

/// The text of a text event: the payload's `content` member, or the whole
/// payload where it has none.
pub open spec fn text_of(rec: EventRecord) -> Seq<char> {
    match json_str_member(rec.payload_data@, "content"@) {
        Some(c) => c,
        None => rec.payload_data@,
    }
}

/// Whether `e` carries the error code `code` and the message `message`.
pub open spec fn error_is(e: AppError, code: Seq<char>, message: Seq<char>) -> bool {
    e.code@ == code && e.message@ == message
}

/// Whether `e` carries the error code `code`, the message `message` and
/// the details `details`.
pub open spec fn error_with_details(e: AppError, code: Seq<char>, message: Seq<char>, details: Seq<char>) -> bool {
    &&& e.code@ == code
    &&& e.message@ == message
    &&& e.details matches Some(d)
    &&& d@ == details
}

/// Decides what copying the stored event `event` (looked up by `event_id`)
/// in `format` needs: the text to write, or the image blob to load.
pub fn plan_clipboard_output(event_id: &str, event: Option<EventRecord>, format: ClipboardFormat) -> (r:
    Result<OutputPlan, AppError>)
    ensures
        match event {
            None => r matches Err(e) && error_with_details(
                e,
                "NOT_FOUND"@,
                "Clipboard event not found"@,
                event_id@,
            ),
            Some(rec) => if !json_parses(rec.payload_data@) {
                r matches Err(e) && error_with_details(
                    e,
                    "SERIALIZATION_ERROR"@,
                    "Failed to parse clipboard event payload"@,
                    json_parse_error(rec.payload_data@)->0,
                )
            } else if is_image_record(rec) {
                if format != ClipboardFormat::Original {
                    r matches Err(e) && error_is(
                        e,
                        "UNSUPPORTED_FORMAT"@,
                        "Image clips only support the original clipboard format"@,
                    ) && e.details is None
                } else {
                    match image_hash_of(rec) {
                        Some(h) => r matches Ok(OutputPlan::LoadImage(hash)) && hash@ == h,
                        None => r matches Err(e) && error_with_details(
                            e,
                            "MISSING_IMAGE"@,
                            "Image clip is missing its content hash"@,
                            rec.id@,
                        ),
                    }
                }
            } else {
                r matches Ok(OutputPlan::Ready(ClipboardOutput::Text(t))) && t@ == formatted_text(
                    text_of(rec),
                    format,
                )
            },
        },
{
    let rec = match event {
        Some(rec) => rec,
        None => {
            return Err(
                AppError::new(
                    "NOT_FOUND",
                    "Clipboard event not found",
                    Some(String::from_str(event_id)),
                ),
            );
        },
    };
    let ptype = chars_of(rec.payload_type.as_str());
    let image = chars_of("image");
    let is_image = contains_chars(ptype.as_slice(), image.as_slice());
    if is_image {
        let member = match json_string_member(rec.payload_data.as_str(), "content_hash") {
            Ok(m) => m,
            Err(msg) => {
                return Err(
                    AppError::new(
                        "SERIALIZATION_ERROR",
                        "Failed to parse clipboard event payload",
                        Some(msg),
                    ),
                );
            },
        };
        if format != ClipboardFormat::Original {
            return Err(
                AppError::new(
                    "UNSUPPORTED_FORMAT",
                    "Image clips only support the original clipboard format",
                    None,
                ),
            );
        }
        let hash = match member {
            Some(h) => h,
            None => match rec.content_hash {
                Some(h) => h,
                None => {
                    return Err(
                        AppError::new(
                            "MISSING_IMAGE",
                            "Image clip is missing its content hash",
                            Some(rec.id),
                        ),
                    );
                },
            },
        };
        Ok(OutputPlan::LoadImage(hash))
    } else {
        let member = match json_string_member(rec.payload_data.as_str(), "content") {
            Ok(m) => m,
            Err(msg) => {
                return Err(
                    AppError::new(
                        "SERIALIZATION_ERROR",
                        "Failed to parse clipboard event payload",
                        Some(msg),
                    ),
                );
            },
        };
        let content = match member {
            Some(c) => c,
            None => rec.payload_data,
        };
        Ok(OutputPlan::Ready(ClipboardOutput::Text(apply_text_format(content.as_str(), format))))
    }
}

/// The output for an image event whose blob lookup under `content_hash`
/// gave `blob` (its MIME type and bytes).
pub fn image_output(content_hash: &str, blob: Option<(String, Vec<u8>)>) -> (r: Result<ClipboardOutput, AppError>)
    ensures
        match blob {
            Some((_, bytes)) => r matches Ok(ClipboardOutput::Image(b)) && b == bytes,
            None => r matches Err(e) && error_with_details(
                e,
                "MISSING_IMAGE"@,
                "Image blob not found"@,
                content_hash@,
            ),
        },
{
    match blob {
        Some((_mime, bytes)) => Ok(ClipboardOutput::Image(bytes)),
        None => Err(
            AppError::new("MISSING_IMAGE", "Image blob not found", Some(String::from_str(content_hash))),
        ),
    }
}

} // verus!
