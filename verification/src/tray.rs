//! The tray menu of pinned clips: its entries, and what a click on one
//! of them asks for.
use vstd::prelude::*;
use vstd::utf8::encode_utf8;

use crate::digits::{decimal, decimal_chars, lemma_parse_decimal, parse_unsigned, parse_unsigned_chars};
use crate::record::EventRecord;
use crate::service::{json_parses, json_str_member, json_string_member};
use crate::text::{chars_of, same_text, starts_with_chars, starts_with_seq, string_from_chars};

verus! {

/// The prefix of the identifiers of clip entries.
pub const CLIP_ITEM_PREFIX: &'static str = "clipboard_";

/// The identifier of the quit entry.
pub const QUIT_ITEM_ID: &'static str = "quit";

/// The identifier of the entry of the pinned clip at `index`.
pub open spec fn clip_item_id(index: nat) -> Seq<char> {
    CLIP_ITEM_PREFIX@ + decimal(index)
}

/// The identifier of the entry of the pinned clip at `index`.
pub fn clip_item_id_of(index: usize) -> (r: String)
    ensures
        r@ == clip_item_id(index as nat),
{
    let ds = decimal_chars(index as u64);
    let mut s = String::from_str(CLIP_ITEM_PREFIX);
    let d = string_from_chars(ds.as_slice());
    s.append(d.as_str());
    s
}

/// What a click on a tray entry asks for.
#[derive(Debug, Clone, Copy, PartialEq, Eq, Structural)]
pub enum MenuCommand {
    /// Quit the application.
    Quit,
    /// Copy the pinned clip at this position.
    CopyPinned(usize),
    /// A clip entry whose position does not parse: nothing to do.
    Ignored,
    /// An entry the menu does not know.
    Unhandled,
}

/// What the entry with identifier `id` asks for.
pub open spec fn menu_command(id: Seq<char>) -> MenuCommand {
    if id == QUIT_ITEM_ID@ {
        MenuCommand::Quit
    } else if starts_with_seq(id, CLIP_ITEM_PREFIX@) {
        match parse_unsigned(id.skip(CLIP_ITEM_PREFIX@.len() as int), usize::MAX as nat) {
            Some(i) => MenuCommand::CopyPinned(i as usize),
            None => MenuCommand::Ignored,
        }
    } else {
        MenuCommand::Unhandled
    }
}

/// What the entry with identifier `id` asks for.
pub fn parse_menu_command(id: &str) -> (r: MenuCommand)
    ensures
        r == menu_command(id@),
{
    if same_text(id, QUIT_ITEM_ID) {
        return MenuCommand::Quit;
    }
    let cs = chars_of(id);
    let prefix = chars_of(CLIP_ITEM_PREFIX);
    if !starts_with_chars(cs.as_slice(), prefix.as_slice()) {
        return MenuCommand::Unhandled;
    }
    let mut rest: Vec<char> = Vec::new();
    let mut i: usize = prefix.len();
    while i < cs.len()
        invariant
            prefix@.len() <= i <= cs@.len(),
            rest@ == cs@.subrange(prefix@.len() as int, i as int),
        decreases cs@.len() - i,
    {
        rest.push(cs[i]);
        i = i + 1;
        assert(rest@ =~= cs@.subrange(prefix@.len() as int, i as int));
    }
    assert(rest@ =~= id@.skip(CLIP_ITEM_PREFIX@.len() as int));
    match parse_unsigned_chars(rest.as_slice(), usize::MAX as u64) {
        Some(n) => MenuCommand::CopyPinned(n as usize),
        None => MenuCommand::Ignored,
    }
}

/// Clicking the entry of the pinned clip at `index` asks to copy that clip.
pub proof fn law_clip_item_roundtrip(index: usize)
    ensures
        menu_command(clip_item_id(index as nat)) == MenuCommand::CopyPinned(index),
{
    reveal_strlit("clipboard_");
    reveal_strlit("quit");
    let id = clip_item_id(index as nat);
    lemma_parse_decimal(index as nat, usize::MAX as nat);
    assert(id.len() != QUIT_ITEM_ID@.len());
    assert(id.take(CLIP_ITEM_PREFIX@.len() as int) =~= CLIP_ITEM_PREFIX@);
    assert(id.skip(CLIP_ITEM_PREFIX@.len() as int) =~= decimal(index as nat));
}

/// The text of a pinned clip's entry: its text content, or for an image
/// `Image | ` and the application it came from, or else its payload type.
pub open spec fn entry_text(rec: EventRecord) -> Seq<char> {
    if json_parses(rec.payload_data@) && json_str_member(rec.payload_data@, "content"@) is Some {
        json_str_member(rec.payload_data@, "content"@)->0
    } else {
        match rec.source_app {
            Some(s) => "Image | "@ + s@,
            None => rec.payload_type@,
        }
    }
}

/// The text of a pinned clip's entry.
pub fn entry_text_of(rec: &EventRecord) -> (r: String)
    ensures
        r@ == entry_text(*rec),
{
    match json_string_member(rec.payload_data.as_str(), "content") {
        Ok(Some(c)) => return c,
        _ => {},
    }
    match &rec.source_app {
        Some(s) => {
            let mut t = String::from_str("Image | ");
            t.append(s.as_str());
            t
        },
        None => rec.payload_type.clone(),
    }
}

/// Whether the entry text can be cut after its 22nd byte: texts of more
/// than 25 bytes are cut there, which must fall between two characters.
pub open spec fn label_cut_ok(text: Seq<char>) -> bool {
    encode_utf8(text).len() > 25 ==> vstd::utf8::is_char_boundary(encode_utf8(text), 22)
}

/// The label of the entry at `index`: its position from 1, then the text,
/// cut after 22 bytes and followed by `...` where it is longer than 25 bytes.
pub open spec fn entry_label(index: nat, text: Seq<char>, head: Seq<char>) -> Seq<char> {
    decimal(index + 1) + ". "@ + if encode_utf8(text).len() > 25 {
        head + "..."@
    } else {
        text
    }
}

/// The label of the entry at `index` with text `text`.
pub fn entry_label_of(index: usize, text: &str) -> (r: String)
    requires
        index < usize::MAX,
        label_cut_ok(text@),
    ensures
        exists|head: Seq<char>|
            (encode_utf8(text@).len() > 25 ==> encode_utf8(head) == encode_utf8(text@).take(22))
                && r@ == entry_label(index as nat, text@, head),
{
    let ds = decimal_chars((index + 1) as u64);
    let mut s = string_from_chars(ds.as_slice());
    s.append(". ");
    if text.as_bytes().len() > 25 {
        let (head, _) = text.split_at(22);
        s.append(head);
        s.append("...");
        proof {
            assert(encode_utf8(head@) =~= encode_utf8(text@).take(22));
            assert(s@ == entry_label(index as nat, text@, head@));
        }
        s
    } else {
        s.append(text);
        assert(s@ == entry_label(index as nat, text@, Seq::empty()));
        s
    }
}


/// Whether the entry of every record can be labelled.
pub open spec fn entries_labelable(records: Seq<EventRecord>) -> bool {
    forall|i: int| 0 <= i < records.len() ==> label_cut_ok(entry_text(#[trigger] records[i]))
}

/// An entry of the tray menu.
#[derive(Debug)]
pub struct MenuEntry {
    pub id: String,
    pub label: String,
    pub enabled: bool,
}

/// Whether `entry` is the enabled entry of record `rec` at `index`: its
/// identifier and its label.
pub open spec fn is_entry(index: nat, rec: EventRecord, entry: MenuEntry) -> bool {
    &&& entry.id@ == clip_item_id(index)
    &&& entry.enabled
    &&& exists|head: Seq<char>|
        (encode_utf8(entry_text(rec)).len() > 25 ==> encode_utf8(head) == encode_utf8(
            entry_text(rec),
        ).take(22)) && entry.label@ == entry_label(index, entry_text(rec), head)
}

/// The entries of the pinned clips `records`, in order: `None` where the
/// text of one of them cannot be cut after its 22nd byte.
pub fn tray_entries(records: &[EventRecord]) -> (r: Option<Vec<MenuEntry>>)
    requires
        records@.len() < usize::MAX,
    ensures
        r is Some <==> entries_labelable(records@),
        r matches Some(v) ==> v@.len() == records@.len() && forall|i: int|
            0 <= i < v@.len() ==> is_entry(i as nat, records@[i], #[trigger] v@[i]),
{
    let mut out: Vec<MenuEntry> = Vec::new();
    let mut i: usize = 0;
    while i < records.len()
        invariant
            i <= records@.len() < usize::MAX,
            out@.len() == i,
            forall|k: int| 0 <= k < i ==> label_cut_ok(entry_text(#[trigger] records@[k])),
            forall|k: int| 0 <= k < i ==> is_entry(k as nat, records@[k], #[trigger] out@[k]),
        decreases records@.len() - i,
    {
        let text = entry_text_of(&records[i]);
        let bytes = text.as_str().as_bytes();
        if bytes.len() > 25 && !text.as_str().is_char_boundary(22) {
            assert(!label_cut_ok(entry_text(records@[i as int])));
            return None;
        }
        let label = entry_label_of(i, text.as_str());
        let id = clip_item_id_of(i);
        out.push(MenuEntry { id, label, enabled: true });
        i = i + 1;
    }
    Some(out)
}

/// The identifier of the entry shown where nothing is pinned.
pub const NO_ITEMS_ID: &'static str = "no_clipboard";

/// The label of the entry shown where nothing is pinned.
pub const NO_ITEMS_LABEL: &'static str = "No clipboard items";

/// The label of the quit entry.
pub const QUIT_LABEL: &'static str = "Quit";

/// The tray menu for the pinned clips `records`: an entry per clip in
/// order, or a disabled "No clipboard items" entry where there is none,
/// then the quit entry. `None` where the text of a clip cannot be cut
/// after its 22nd byte.
pub fn tray_menu(records: &[EventRecord]) -> (r: Option<Vec<MenuEntry>>)
    requires
        records@.len() < usize::MAX,
    ensures
        r is Some <==> entries_labelable(records@),
        r matches Some(v) ==> {
            &&& v@.len() == if records@.len() == 0 {
                2
            } else {
                records@.len() + 1
            }
            &&& records@.len() == 0 ==> v@[0].id@ == NO_ITEMS_ID@ && v@[0].label@ == NO_ITEMS_LABEL@
                && !v@[0].enabled
            &&& forall|i: int| 0 <= i < records@.len() ==> is_entry(i as nat, records@[i], #[trigger] v@[i])
            &&& v@.last().id@ == QUIT_ITEM_ID@ && v@.last().label@ == QUIT_LABEL@ && v@.last().enabled
        },
{
    let mut menu = if records.len() == 0 {
        let mut m: Vec<MenuEntry> = Vec::new();
        m.push(
            MenuEntry {
                id: String::from_str(NO_ITEMS_ID),
                label: String::from_str(NO_ITEMS_LABEL),
                enabled: false,
            },
        );
        m
    } else {
        match tray_entries(records) {
            Some(e) => e,
            None => return None,
        }
    };
    let ghost before = menu@;
    menu.push(
        MenuEntry { id: String::from_str(QUIT_ITEM_ID), label: String::from_str(QUIT_LABEL), enabled: true },
    );
    assert forall|i: int| 0 <= i < records@.len() implies is_entry(i as nat, records@[i], #[trigger] menu@[i]) by {
        assert(menu@[i] == before[i]);
    }
    Some(menu)
}

} // verus!
