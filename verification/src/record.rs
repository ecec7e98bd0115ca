//! The stored form of an event.
use vstd::prelude::*;

use crate::class::ContentType;
use crate::classification::{classification, classify_text};
use crate::events::{Event, EventPayload};
use crate::text::trim;

verus! {

/// Full event record with metadata (database representation)
#[derive(Debug)]
pub struct EventRecord {
    pub id: String,
    pub timestamp: i64,
    pub source: String,
    pub payload_type: String,
    pub payload_data: String,
    pub window_title: Option<String>,
    pub source_app: Option<String>,
    pub content_hash: Option<String>,
    pub pinned: bool,
    pub created_at: i64,
    pub classification: Option<String>,
}

/// A binary blob (an image) stored under its content hash.
#[derive(Debug)]
pub struct BlobRow {
    pub content_hash: String,
    pub mime: String,
    pub data: Vec<u8>,
}

pub(crate) fn clone_text(o: &Option<String>) -> (r: Option<String>)
    ensures
        r == *o,
{
    match o {
        Some(s) => Some(s.clone()),
        None => None,
    }
}

/// The classification an event is stored with: the kind of its text, or
/// `image` for an image.
pub open spec fn stored_classification(payload: EventPayload, on_disk: bool) -> Seq<char> {
    match payload {
        EventPayload::ClipboardText { content, .. } => classification(trim(content@), on_disk).name(),
        EventPayload::ClipboardImage { .. } => "image"@,
    }
}

/// The record under which `event` is stored, with its payload serialized
/// as `payload_data` and stored at time `created_at`.
pub fn record_for(event: &Event, payload_data: String, created_at: i64) -> (r: EventRecord)
    ensures
        r.id == event.id,
        r.timestamp == event.timestamp,
        r.source@ == event.source.name(),
        r.payload_type@ == event.payload.kind_name(),
        r.payload_data == payload_data,
        r.window_title == event.window_title,
        r.source_app == event.source_app,
        r.content_hash matches Some(h) && h@ == event.payload.hash_of(),
        r.pinned == event.pinned,
        r.created_at == created_at,
        r.classification matches Some(c) && exists|on_disk: bool|
            c@ == stored_classification(event.payload, on_disk),
{
    let (hash, class) = match &event.payload {
        EventPayload::ClipboardText { content, content_hash, .. } => {
            let kind = classify_text(content.as_str());
            let class = String::from_str(kind.as_str());
            proof {
                let b = choose|b: bool| kind == classification(trim(content@), b);
                assert(class@ == stored_classification(event.payload, b));
            }
            (content_hash.clone(), class)
        },
        EventPayload::ClipboardImage { content_hash, .. } => {
            let class = String::from_str(ContentType::Image.as_str());
            assert(class@ == stored_classification(event.payload, false));
            (content_hash.clone(), class)
        },
    };
    EventRecord {
        id: event.id.clone(),
        timestamp: event.timestamp,
        source: String::from_str(event.source.as_str()),
        payload_type: String::from_str(event.payload.payload_type()),
        payload_data,
        window_title: clone_text(&event.window_title),
        source_app: clone_text(&event.source_app),
        content_hash: Some(hash),
        pinned: event.pinned,
        created_at,
        classification: Some(class),
    }
}

/// The blob to store beside an image event: its PNG bytes under its
/// content hash. Other events have none.
pub fn blob_for(event: &Event) -> (r: Option<BlobRow>)
    ensures
        match event.payload {
            EventPayload::ClipboardImage { content_hash, mime, data: Some(d), .. } => r matches Some(b)
                && b.content_hash@ == content_hash@ && b.mime@ == mime@ && b.data@ == d@,
            _ => r is None,
        },
{
    match &event.payload {
        EventPayload::ClipboardImage { content_hash, mime, data: Some(d), .. } => {
            let mut data: Vec<u8> = Vec::new();
            let mut i: usize = 0;
            while i < d.len()
                invariant
                    i <= d@.len(),
                    data@ == d@.take(i as int),
                decreases d@.len() - i,
            {
                data.push(d[i]);
                i = i + 1;
                assert(data@ =~= d@.take(i as int));
            }
            assert(d@.take(d@.len() as int) =~= d@);
            Some(BlobRow { content_hash: content_hash.clone(), mime: mime.clone(), data })
        },
        _ => None,
    }
}

} // verus!
