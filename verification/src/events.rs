//! The unified event model for everything the application records.
use vstd::prelude::*;

use crate::text::same_text;

verus! {

/// Event source classification
#[derive(Debug, Clone, Copy, PartialEq, Eq, Structural)]
pub enum EventSource {
    Clipboard,
}

impl EventSource {
    /// The name under which the source is stored.
    pub open spec fn name(self) -> Seq<char> {
        match self {
            EventSource::Clipboard => "clipboard"@,
        }
    }

    /// The source whose name is `s`, if any.
    pub open spec fn named(s: Seq<char>) -> Option<EventSource> {
        if s == "clipboard"@ {
            Some(EventSource::Clipboard)
        } else {
            None
        }
    }

    /// The name of the source.
    pub fn as_str(&self) -> (r: &'static str)
        ensures
            r@ == self.name(),
    {
        match self {
            EventSource::Clipboard => "clipboard",
        }
    }

    /// The source named `s`, if any.
    pub fn from_str(s: &str) -> (r: Option<EventSource>)
        ensures
            r == EventSource::named(s@),
    {
        if same_text(s, "clipboard") {
            Some(EventSource::Clipboard)
        } else {
            None
        }
    }
}

/// Reading back the name of a source gives the source.
pub proof fn law_event_source_name_roundtrip(source: EventSource)
    ensures
        EventSource::named(source.name()) == Some(source),
{
}

/// Event payload - source-specific data
#[derive(Debug)]
pub enum EventPayload {
    ClipboardText { content: String, is_truncated: bool, content_hash: String },
    ClipboardImage {
        content_hash: String,
        mime: String,
        preview: Option<String>,
        /// The encoded image; never serialized.
        data: Option<Vec<u8>>,
    },
}

impl EventPayload {
    /// The name of the payload's kind.
    pub open spec fn kind_name(&self) -> Seq<char> {
        match self {
            EventPayload::ClipboardText { .. } => "clipboard_text"@,
            EventPayload::ClipboardImage { .. } => "clipboard_image"@,
        }
    }

    /// The name of the payload's kind.
    pub fn payload_type(&self) -> (r: &'static str)
        ensures
            r@ == self.kind_name(),
    {
        match self {
            EventPayload::ClipboardText { .. } => "clipboard_text",
            EventPayload::ClipboardImage { .. } => "clipboard_image",
        }
    }

    /// The content hash that the payload carries.
    pub open spec fn hash_of(&self) -> Seq<char> {
        match self {
            EventPayload::ClipboardText { content_hash, .. } => content_hash@,
            EventPayload::ClipboardImage { content_hash, .. } => content_hash@,
        }
    }
}

/// Unified event model for all system events
#[derive(Debug)]
pub struct Event {
    pub id: String,
    pub timestamp: i64,
    pub source: EventSource,
    pub payload: EventPayload,
    pub window_title: Option<String>,
    pub source_app: Option<String>,
    pub pinned: bool,
}

/// A lowercase hexadecimal digit.
pub open spec fn is_lower_hex_digit(c: char) -> bool {
    ('0' <= c && c <= '9') || ('a' <= c && c <= 'f')
}

/// The hyphenated lowercase text of a random (version 4, RFC 4122 variant)
/// UUID: 32 hexadecimal digits in groups of 8, 4, 4, 4 and 12, the version
/// digit `4` opening the third group and one of `8`, `9`, `a`, `b`
/// opening the fourth.
pub open spec fn uuid_v4_text(s: Seq<char>) -> bool {
    &&& s.len() == 36
    &&& forall|i: int|
        0 <= i < 36 ==> if i == 8 || i == 13 || i == 18 || i == 23 {
            #[trigger] s[i] == '-'
        } else {
            is_lower_hex_digit(s[i])
        }
    &&& s[14] == '4'
    &&& (s[19] == '8' || s[19] == '9' || s[19] == 'a' || s[19] == 'b')
}

/// Calls `uuid::Uuid::new_v4` and formats the result with `to_string`,
/// which writes the hyphenated lowercase form; `new_v4` fixes the version
/// and variant bits and draws the rest at random, so nothing more is
/// promised of the identifier. `new_v4` panics where the operating system
/// has no random bytes to give; that cannot be ruled out here.
#[verifier::external_body]
fn new_event_id() -> (r: String)
    ensures
        uuid_v4_text(r@),
{
    uuid::Uuid::new_v4().to_string()
}

/// Calls `chrono::Utc::now().timestamp_millis()`; the clock decides the
/// value, so nothing is promised of it. `Utc::now` panics where the
/// system clock reads a time before 1970; that cannot be ruled out here.
#[verifier::external_body]
fn now_millis() -> (r: i64) {
    chrono::Utc::now().timestamp_millis()
}

impl Event {
    /// An unpinned event without window context, with the given identifier
    /// and time.
    pub fn from_parts(id: String, timestamp: i64, source: EventSource, payload: EventPayload) -> (r:
        Event)
        ensures
            r.id == id,
            r.timestamp == timestamp,
            r.source == source,
            r.payload == payload,
            r.window_title is None,
            r.source_app is None,
            !r.pinned,
    {
        Event { id, timestamp, source, payload, window_title: None, source_app: None, pinned: false }
    }

    /// A new unpinned event without window context, with a fresh random
    /// identifier and the current time.
    pub fn new(source: EventSource, payload: EventPayload) -> (r: Event)
        ensures
            uuid_v4_text(r.id@),
            r.source == source,
            r.payload == payload,
            r.window_title is None,
            r.source_app is None,
            !r.pinned,
    {
        let id = new_event_id();
        let timestamp = now_millis();
        Event::from_parts(id, timestamp, source, payload)
    }

    /// The event with its window title and source application replaced.
    pub fn with_context(self, window_title: Option<String>, source_app: Option<String>) -> (r:
        Event)
        ensures
            r == (Event { window_title, source_app, ..self }),
    {
        let mut e = self;
        e.window_title = window_title;
        e.source_app = source_app;
        e
    }
}

} // verus!
