//! Clipboard content: turning what the clipboard holds into content that
//! can be recorded, and the decisions of the clipboard watcher.
use base64::Engine;
use vstd::prelude::*;
use vstd::utf8::encode_utf8;

use crate::config::ClipboardConfig;
use crate::digits::{
    hex_fixed, hex_fixed_chars, hex_char, hex_value, lemma_hex16_roundtrip, lemma_hex_fixed_value, parse_hex_u64_chars, pow16,
};
use crate::events::{uuid_v4_text, Event, EventPayload, EventSource};
use crate::text::{chars_of, contains_chars, contains_seq, starts_with_chars, starts_with_seq, string_from_chars, trim, trim_chars};

verus! {

/// What `xxhash_rust::xxh3::xxh3_64` gives for `bytes`.
pub uninterp spec fn xxh3_64_of(bytes: Seq<u8>) -> u64;

/// Calls `xxhash_rust::xxh3::xxh3_64`; its result is named by `xxh3_64_of`.
#[verifier::external_body]
pub(crate) fn xxh3_64(bytes: &[u8]) -> (r: u64)
    ensures
        r == xxh3_64_of(bytes@),
{
    xxhash_rust::xxh3::xxh3_64(bytes)
}

/// The content hash that a clipboard item is recorded under: the XXH3
/// hash of `bytes` as 16 lowercase hexadecimal digits.
pub open spec fn content_hash_text(bytes: Seq<u8>) -> Seq<char> {
    hex_fixed(xxh3_64_of(bytes) as nat, 16)
}

/// A content hash is the XXH3 hash of the bytes written as exactly 16
/// lowercase hexadecimal digits, most significant first, with leading
/// zeros: read back in base 16 it is the hash.
pub proof fn law_content_hash_is_16_lowercase_hex_digits(bytes: Seq<u8>)
    ensures
        content_hash_text(bytes).len() == 16,
        forall|i: int|
            0 <= i < 16 ==> {
                let c = #[trigger] content_hash_text(bytes)[i];
                ('0' <= c && c <= '9') || ('a' <= c && c <= 'f')
            },
        hex_value(content_hash_text(bytes)) == xxh3_64_of(bytes),
{
    let x = xxh3_64_of(bytes);
    lemma_hex_fixed_value(x as nat, 16);
    lemma_hex_fixed_lowercase(x as nat, 16);
    reveal_with_fuel(pow16, 17);
    assert(pow16(16) == 0x1_0000_0000_0000_0000);
}

proof fn lemma_hex_fixed_lowercase(x: nat, w: nat)
    ensures
        forall|i: int|
            0 <= i < hex_fixed(x, w).len() ==> {
                let c = #[trigger] hex_fixed(x, w)[i];
                ('0' <= c && c <= '9') || ('a' <= c && c <= 'f')
            },
    decreases w,
{
    if w > 0 {
        lemma_hex_fixed_lowercase(x / 16, (w - 1) as nat);
        let h = hex_fixed(x, w);
        let prev = hex_fixed(x / 16, (w - 1) as nat);
        assert(h.drop_last() =~= prev);
        assert forall|i: int| 0 <= i < h.len() implies {
            let c = #[trigger] h[i];
            ('0' <= c && c <= '9') || ('a' <= c && c <= 'f')
        } by {
            if i < prev.len() {
                assert(h[i] == prev[i]);
            } else {
                assert(h[i] == hex_char(x % 16));
            }
        }
    }
}

fn content_hash_string(bytes: &[u8]) -> (r: String)
    ensures
        r@ == content_hash_text(bytes@),
{
    let h = xxh3_64(bytes);
    let cs = hex_fixed_chars(h, 16);
    string_from_chars(cs.as_slice())
}

/// Result of processing clipboard content
#[derive(Debug)]
pub enum ClipboardContent {
    Text { hash: String, content: String, is_truncated: bool },
    Image { hash: String, png_bytes: Vec<u8>, preview_url: String },
}

/// The first `n` characters of `s`, or all of `s` where it is shorter.
pub open spec fn take_chars(s: Seq<char>, n: nat) -> Seq<char> {
    if n < s.len() {
        s.take(n as int)
    } else {
        s
    }
}

/// Cutting text keeps its first characters: `min(n, len)` of them, in
/// order.
pub proof fn law_cut_keeps_the_first_characters(s: Seq<char>, n: nat)
    ensures
        take_chars(s, n).len() == if n < s.len() {
            n as int
        } else {
            s.len() as int
        },
        forall|i: int| 0 <= i < take_chars(s, n).len() ==> #[trigger] take_chars(s, n)[i] == s[i],
{
}

/// Text that the watcher leaves alone: empty once trimmed, or one of the
/// application's own menu identifiers.
pub open spec fn ignored_text(t: Seq<char>) -> bool {
    t.len() == 0 || starts_with_seq(t, "clipboard_"@)
}

/// The text content recorded for clipboard text `text`.
pub open spec fn text_content_matches(
    text: Seq<char>,
    config: ClipboardConfig,
    c: ClipboardContent,
) -> bool {
    let t = trim(text);
    let truncated = encode_utf8(t).len() > config.max_payload_bytes;
    &&& c matches ClipboardContent::Text { hash, content, is_truncated }
    &&& c->Text_hash@ == content_hash_text(encode_utf8(t))
    &&& c->Text_is_truncated == truncated
    &&& c->Text_content@ == (if truncated {
        take_chars(t, config.preview_chars as nat)
    } else {
        t
    })
}

/// Recorded clipboard text is the trimmed text, whole where its UTF-8 form
/// fits in `max_payload_bytes` bytes, and otherwise cut to its first
/// `preview_chars` characters and marked as truncated; its hash is that of
/// the whole trimmed text's UTF-8 bytes.
pub proof fn law_recorded_text(text: Seq<char>, config: ClipboardConfig, c: ClipboardContent)
    requires
        text_content_matches(text, config, c),
    ensures
        c matches ClipboardContent::Text { hash, content, is_truncated } && {
            let t = trim(text);
            &&& is_truncated <==> encode_utf8(t).len() > config.max_payload_bytes
            &&& !is_truncated ==> content@ == t
            &&& is_truncated ==> content@.len() == (if config.preview_chars < t.len() {
                config.preview_chars as int
            } else {
                t.len() as int
            })
            &&& is_truncated ==> forall|i: int| 0 <= i < content@.len() ==> #[trigger] content@[i] == t[i]
            &&& hash@ == hex_fixed(xxh3_64_of(encode_utf8(t)) as nat, 16)
        },
{
}

fn take_prefix(s: &[char], n: usize) -> (r: Vec<char>)
    ensures
        r@ == take_chars(s@, n as nat),
{
    let m = if n < s.len() {
        n
    } else {
        s.len()
    };
    let mut out: Vec<char> = Vec::new();
    let mut i: usize = 0;
    while i < m
        invariant
            i <= m <= s@.len(),
            out@ == s@.take(i as int),
        decreases m - i,
    {
        out.push(s[i]);
        i = i + 1;
        assert(out@ =~= s@.take(i as int));
    }
    assert(s@.take(s@.len() as int) =~= s@);
    out
}

/// Process text from clipboard into content: the trimmed text, hashed,
/// and cut to `preview_chars` characters where it is longer than
/// `max_payload_bytes` bytes. Empty text and the application's own
/// `clipboard_` identifiers give nothing.
pub fn process_text(text: &str, config: &ClipboardConfig) -> (r: Option<ClipboardContent>)
    ensures
        ignored_text(trim(text@)) ==> r is None,
        !ignored_text(trim(text@)) ==> (r matches Some(c) && text_content_matches(text@, *config, c)),
{
    let cs = chars_of(text);
    let t = trim_chars(cs.as_slice());
    let prefix = chars_of("clipboard_");
    if t.len() == 0 || starts_with_chars(t.as_slice(), prefix.as_slice()) {
        return None;
    }
    let trimmed = string_from_chars(t.as_slice());
    let bytes = trimmed.as_str().as_bytes();
    let hash = content_hash_string(bytes);
    let is_truncated = bytes.len() > config.max_payload_bytes;
    let content = if is_truncated {
        let p = take_prefix(t.as_slice(), config.preview_chars);
        string_from_chars(p.as_slice())
    } else {
        trimmed
    };
    let c = ClipboardContent::Text { hash, content, is_truncated };
    Some(c)
}


/// Raw RGBA pixels as the clipboard hands them over.
#[derive(Debug)]
pub struct RawImage {
    pub width: u32,
    pub height: u32,
    /// Four bytes per pixel, row by row.
    pub rgba: Vec<u8>,
}

/// What encoding a `width` x `height` RGBA image as PNG with the `image`
/// crate gives: `None` where the encoder refuses.
pub uninterp spec fn png_encoding(width: u32, height: u32, rgba: Seq<u8>) -> Option<Seq<u8>>;

/// Builds an RGBA `image::ImageBuffer` from `rgba` and writes it as PNG
/// with `DynamicImage::write_to`. The result is named by `png_encoding`.
/// The PNG encoder refuses images without width or height and accepts
/// every other well-sized RGBA image; the buffer is exact, so building it
/// cannot fail.
#[verifier::external_body]
fn encode_png(width: u32, height: u32, rgba: &[u8]) -> (r: Option<Vec<u8>>)
    requires
        rgba@.len() == width * height * 4,
    ensures
        match r {
            Some(v) => png_encoding(width, height, rgba@) == Some(v@),
            None => png_encoding(width, height, rgba@) is None,
        },
        (width == 0 || height == 0) <==> r is None,
{
    let buf = image::ImageBuffer::<image::Rgba<u8>, Vec<u8>>::from_raw(width, height, rgba.to_vec())?;
    let img = image::DynamicImage::ImageRgba8(buf);
    let mut out: Vec<u8> = Vec::new();
    img.write_to(&mut std::io::Cursor::new(&mut out), image::ImageOutputFormat::Png).ok()?;
    Some(out)
}

/// The eight bytes that open every PNG file.
pub open spec fn png_signature() -> Seq<u8> {
    seq![137u8, 80u8, 78u8, 71u8, 13u8, 10u8, 26u8, 10u8]
}

/// The type of the PNG header chunk, `IHDR`.
pub open spec fn ihdr_tag() -> Seq<u8> {
    seq![73u8, 72u8, 68u8, 82u8]
}

/// The big-endian 32-bit number held by the four bytes at `i`.
pub open spec fn be_u32_at(b: Seq<u8>, i: int) -> int {
    b[i] * 16777216 + b[i + 1] * 65536 + b[i + 2] * 256 + b[i + 3]
}

/// Whether `b` opens as a PNG file whose header chunk gives the width `w`
/// and the height `h`.
pub open spec fn png_header_size(b: Seq<u8>, w: int, h: int) -> bool {
    &&& b.len() >= 24
    &&& b.subrange(0, 8) == png_signature()
    &&& b.subrange(12, 16) == ihdr_tag()
    &&& be_u32_at(b, 16) == w
    &&& be_u32_at(b, 20) == h
}

/// Whether `pw` x `ph` is the size that `DynamicImage::resize` gives a
/// `width` x `height` image asked to fit a `max_dim` square: the longer
/// side becomes `max_dim`, and the other side is the scaled size rounded,
/// less than one pixel away from the exact `side * max_dim / longer`, and
/// at least one; a `max_dim` of zero gives one pixel by one.
pub open spec fn preview_size_ok(pw: int, ph: int, width: u32, height: u32, max_dim: u32) -> bool {
    if max_dim == 0 {
        pw == 1 && ph == 1
    } else if width >= height {
        &&& pw == max_dim
        &&& 1 <= ph <= max_dim
        &&& -(width as int) < ph * width - height * max_dim < width
    } else {
        &&& ph == max_dim
        &&& 1 <= pw <= max_dim
        &&& -(height as int) < pw * height - width * max_dim < height
    }
}

/// Whether `b` is a preview of a `width` x `height` image made to fit a
/// `max_dim` square: a PNG whose header gives the size that
/// `preview_size_ok` describes.
pub open spec fn preview_fits(b: Seq<u8>, width: u32, height: u32, max_dim: u32) -> bool {
    exists|pw: int, ph: int|
        #![trigger png_header_size(b, pw, ph)]
        png_header_size(b, pw, ph) && preview_size_ok(pw, ph, width, height, max_dim)
}

/// Whether the buffers that resizing a `width`-pixel-wide image to fit a
/// `max_dim` square allocates fit in memory's address range: the
/// intermediate rows of four `f32` channels and the result of four bytes
/// per pixel.
pub open spec fn preview_buffers_fit(width: u32, max_dim: u32) -> bool {
    let m: int = if max_dim == 0 {
        1
    } else {
        max_dim as int
    };
    &&& width * m * 16 <= isize::MAX
    &&& m * m * 4 <= isize::MAX
}

/// Builds an RGBA `image::ImageBuffer` from `rgba`, shrinks or grows it with
/// `DynamicImage::resize` to fit a `max_dim` square (Lanczos3), and writes
/// the result as PNG. The resampling computes with floating point
/// (`f32::sin`), whose results std lets vary, so the pixels of the preview
/// are not promised; its size is. `resize_dimensions` scales both sides by
/// the smaller of `max_dim / width` and `max_dim / height` in `f64`, rounds,
/// and keeps at least one pixel: with sides below 2^32 the rounding error of
/// the two `f64` operations stays far below half a pixel, so the longer side
/// becomes exactly `max_dim` and the other side lies less than one pixel
/// from its exact scaled size (an image already `max_dim` square is kept as
/// it is). The PNG encoder writes the signature and the header chunk first
/// and accepts every image with pixels, so the result is always `Some`.
/// The requirement keeps the resampling buffers within what a `Vec` can
/// hold; beyond it `ImageBuffer::new` panics.
#[verifier::external_body]
fn encode_png_preview(width: u32, height: u32, rgba: &[u8], max_dim: u32) -> (r: Option<Vec<u8>>)
    requires
        width > 0,
        height > 0,
        rgba@.len() == width * height * 4,
        preview_buffers_fit(width, max_dim),
    ensures
        r is Some,
        r matches Some(v) ==> preview_fits(v@, width, height, max_dim),
{
    let buf = image::ImageBuffer::<image::Rgba<u8>, Vec<u8>>::from_raw(width, height, rgba.to_vec())?;
    let img = image::DynamicImage::ImageRgba8(buf);
    let preview = img.resize(max_dim, max_dim, image::imageops::FilterType::Lanczos3);
    let mut out: Vec<u8> = Vec::new();
    preview.write_to(&mut std::io::Cursor::new(&mut out), image::ImageOutputFormat::Png).ok()?;
    Some(out)
}

/// The character of the standard Base64 alphabet for `v` (`v < 64`).
pub open spec fn base64_char(v: int) -> char {
    if v < 26 {
        ('A' as int + v) as char
    } else if v < 52 {
        ('a' as int + (v - 26)) as char
    } else if v < 62 {
        ('0' as int + (v - 52)) as char
    } else if v == 62 {
        '+'
    } else {
        '/'
    }
}

/// Standard Base64 (RFC 4648, section 4) with `=` padding: each group of
/// three bytes becomes four characters of six bits each.
pub open spec fn base64_standard(b: Seq<u8>) -> Seq<char>
    decreases b.len(),
{
    if b.len() == 0 {
        Seq::empty()
    } else {
        let x = b[0] as int;
        if b.len() == 1 {
            seq![base64_char(x / 4), base64_char((x % 4) * 16), '=', '=']
        } else {
            let y = b[1] as int;
            if b.len() == 2 {
                seq![
                    base64_char(x / 4),
                    base64_char((x % 4) * 16 + y / 16),
                    base64_char((y % 16) * 4),
                    '=',
                ]
            } else {
                let z = b[2] as int;
                seq![
                    base64_char(x / 4),
                    base64_char((x % 4) * 16 + y / 16),
                    base64_char((y % 16) * 4 + z / 64),
                    base64_char(z % 64),
                ] + base64_standard(b.skip(3))
            }
        }
    }
}

/// Calls `Engine::encode` of `base64::engine::general_purpose::STANDARD`:
/// the standard alphabet with padding.
#[verifier::external_body]
fn base64_encode(bytes: &[u8]) -> (r: String)
    ensures
        r@ == base64_standard(bytes@),
{
    base64::engine::general_purpose::STANDARD.encode(bytes)
}

/// The `data:` URL of a PNG preview.
pub open spec fn preview_data_url(preview: Seq<u8>) -> Seq<char> {
    "data:image/png;base64,"@ + base64_standard(preview)
}

/// Whether `c` is the image content for the PNG encoding `png` and the
/// PNG preview `preview`: the PNG bytes, the data URL of the preview, and
/// the hash of the PNG bytes.
pub open spec fn image_content_of(png: Seq<u8>, preview: Seq<u8>, c: ClipboardContent) -> bool {
    &&& c matches ClipboardContent::Image { hash, png_bytes, preview_url }
    &&& c->Image_png_bytes@ == png
    &&& c->Image_preview_url@ == preview_data_url(preview)
    &&& c->Image_hash@ == content_hash_text(png)
}

/// The image content recorded for a clipboard image: its PNG encoding, and
/// a preview of the size that fitting it to a `preview_max_dim` square gives.
pub open spec fn image_content_matches(image: RawImage, config: ClipboardConfig, c: ClipboardContent) -> bool {
    &&& png_encoding(image.width, image.height, image.rgba@) matches Some(png)
    &&& exists|preview: Seq<u8>|
        #![trigger preview_data_url(preview)]
        preview_fits(preview, image.width, image.height, config.preview_max_dim) && image_content_of(png, preview, c)
}

/// Whether the pixel buffer has exactly four bytes for each pixel, with a
/// pixel count whose byte size fits in a `u32`.
pub open spec fn well_sized(image: RawImage) -> bool {
    image.width * image.height * 4 <= u32::MAX && image.rgba@.len() == image.width * image.height * 4
}

/// Whether an image yields content: its buffer is well sized and it has
/// pixels.
pub open spec fn image_processable(image: RawImage) -> bool {
    &&& well_sized(image)
    &&& image.width > 0
    &&& image.height > 0
}

/// Whether processing `image` stays within memory's address range (see
/// `preview_buffers_fit`); only an image that reaches the encoders needs it.
pub open spec fn image_fits_memory(image: RawImage, config: ClipboardConfig) -> bool {
    image_processable(image) ==> preview_buffers_fit(image.width, config.preview_max_dim)
}

/// The image content for the PNG encoding `png` and the PNG preview
/// `preview`.
pub fn image_content(png: Vec<u8>, preview: &[u8]) -> (r: ClipboardContent)
    ensures
        image_content_of(png@, preview@, r),
{
    let b64 = base64_encode(preview);
    let mut preview_url = String::from_str("data:image/png;base64,");
    preview_url.append(b64.as_str());
    let hash = content_hash_string(png.as_slice());
    ClipboardContent::Image { hash, png_bytes: png, preview_url }
}

/// Process an image from the clipboard into content: the PNG encoding, a
/// PNG preview that fits a `preview_max_dim` square as a data URL, and the
/// hash of the PNG bytes. A pixel buffer of the wrong size, or an image
/// without pixels, gives nothing.
pub fn process_image(image: RawImage, config: &ClipboardConfig) -> (r: Option<ClipboardContent>)
    requires
        image_fits_memory(image, *config),
    ensures
        match r {
            Some(c) => image_processable(image) && image_content_matches(image, *config, c),
            None => !image_processable(image),
        },
{
    let pixels = match image.width.checked_mul(image.height) {
        Some(p) => p,
        None => {
            proof {
                assert(image.width * image.height * 4 > u32::MAX) by (nonlinear_arith)
                    requires
                        image.width * image.height > u32::MAX,
                ;
            }
            return None;
        },
    };
    let expected = match pixels.checked_mul(4) {
        Some(e) => e,
        None => return None,
    };
    if image.rgba.len() != expected as usize {
        return None;
    }
    let png = match encode_png(image.width, image.height, image.rgba.as_slice()) {
        Some(p) => p,
        None => return None,
    };
    let preview = match encode_png_preview(
        image.width,
        image.height,
        image.rgba.as_slice(),
        config.preview_max_dim,
    ) {
        Some(p) => p,
        None => return None,
    };
    let c = image_content(png, preview.as_slice());
    proof {
        assert(preview_data_url(preview@) == preview_data_url(preview@));
    }
    Some(c)
}

fn copy_bytes(v: &[u8]) -> (r: Vec<u8>)
    ensures
        r@ == v@,
{
    let mut out: Vec<u8> = Vec::new();
    let mut i: usize = 0;
    while i < v.len()
        invariant
            i <= v@.len(),
            out@ == v@.take(i as int),
        decreases v@.len() - i,
    {
        out.push(v[i]);
        i = i + 1;
        assert(out@ =~= v@.take(i as int));
    }
    assert(v@.take(v@.len() as int) =~= v@);
    out
}

impl ClipboardContent {
    /// Whether `payload` records this content: text as clipboard text with
    /// its truncation flag and hash, an image as a PNG with its preview URL,
    /// hash and bytes.
    pub open spec fn recorded_as(&self, payload: EventPayload) -> bool {
        match self {
            ClipboardContent::Text { hash, content, is_truncated } => {
                &&& payload matches EventPayload::ClipboardText {
                    content: pc,
                    is_truncated: pt,
                    content_hash: ph,
                }
                &&& pc@ == content@
                &&& pt == *is_truncated
                &&& ph@ == hash@
            },
            ClipboardContent::Image { hash, png_bytes, preview_url } => {
                &&& payload matches EventPayload::ClipboardImage {
                    content_hash: ph,
                    mime: pm,
                    preview: Some(pp),
                    data: Some(pd),
                }
                &&& ph@ == hash@
                &&& pm@ == "image/png"@
                &&& pp@ == preview_url@
                &&& pd@ == png_bytes@
            },
        }
    }

    /// A new clipboard event that records this content, with the given
    /// window context.
    pub fn to_event(&self, source_app: Option<String>, window_title: Option<String>) -> (r: Event)
        ensures
            uuid_v4_text(r.id@),
            r.source == EventSource::Clipboard,
            self.recorded_as(r.payload),
            r.window_title == window_title,
            r.source_app == source_app,
            !r.pinned,
    {
        let payload = match self {
            ClipboardContent::Text { hash, content, is_truncated } => EventPayload::ClipboardText {
                content: content.clone(),
                is_truncated: *is_truncated,
                content_hash: hash.clone(),
            },
            ClipboardContent::Image { hash, png_bytes, preview_url } => {
                EventPayload::ClipboardImage {
                    content_hash: hash.clone(),
                    mime: String::from_str("image/png"),
                    preview: Some(preview_url.clone()),
                    data: Some(copy_bytes(png_bytes.as_slice())),
                }
            },
        };
        Event::new(EventSource::Clipboard, payload).with_context(window_title, source_app)
    }

    /// The content hash.
    pub open spec fn hash_view(&self) -> Seq<char> {
        match self {
            ClipboardContent::Text { hash, .. } => hash@,
            ClipboardContent::Image { hash, .. } => hash@,
        }
    }

    /// The content hash.
    pub fn hash(&self) -> (r: &str)
        ensures
            r@ == self.hash_view(),
    {
        match self {
            ClipboardContent::Text { hash, .. } => hash.as_str(),
            ClipboardContent::Image { hash, .. } => hash.as_str(),
        }
    }
}


/// What one poll of the clipboard found.
pub enum ClipboardRead {
    /// The clipboard holds text.
    Text(String),
    /// The clipboard holds no text but an image.
    Image(RawImage),
    /// The clipboard holds neither; the message says why.
    Unavailable(String),
}

/// What the watcher does after a poll.
pub enum WatchAction {
    /// Store this new content.
    Emit(ClipboardContent),
    /// Nothing new to store.
    Skip,
    /// An image was found but could not be processed.
    ImageUnprocessable,
    /// Nothing could be read; `log` says whether the reason is worth an
    /// error report.
    ReadFailed { log: bool },
}

/// The key under which the watcher remembers text: the XXH3 hash of the
/// trimmed text.
pub open spec fn text_key(text: Seq<char>) -> u64 {
    xxh3_64_of(encode_utf8(trim(text)))
}

/// The window context that a probe of the frontmost application reported:
/// its output trimmed, and nothing where that leaves nothing.
pub fn window_context(raw: &str) -> (r: Option<String>)
    ensures
        trim(raw@).len() == 0 ==> r is None,
        trim(raw@).len() > 0 ==> (r matches Some(s) && s@ == trim(raw@)),
{
    let cs = chars_of(raw);
    let t = trim_chars(cs.as_slice());
    if t.len() == 0 {
        None
    } else {
        Some(string_from_chars(t.as_slice()))
    }
}

/// Whether a read failure is worth reporting: the platform's ordinary
/// "nothing in this format" answers are not.
pub open spec fn failure_worth_reporting(msg: Seq<char>) -> bool {
    &&& !contains_seq(msg, "not available in the requested format"@)
    &&& !contains_seq(msg, "NSPasteboardTypeString"@)
    &&& !contains_seq(msg, "NSPasteboard#types"@)
}

/// Whether a read failure is worth reporting.
pub fn read_failure_worth_reporting(msg: &str) -> (r: bool)
    ensures
        r == failure_worth_reporting(msg@),
{
    let m = chars_of(msg);
    let a = chars_of("not available in the requested format");
    let b = chars_of("NSPasteboardTypeString");
    let c = chars_of("NSPasteboard#types");
    !contains_chars(m.as_slice(), a.as_slice()) && !contains_chars(m.as_slice(), b.as_slice())
        && !contains_chars(m.as_slice(), c.as_slice())
}

/// The key under which the watcher remembers an image: the XXH3 hash of
/// its PNG encoding.
pub open spec fn image_key(image: RawImage) -> u64 {
    xxh3_64_of(png_encoding(image.width, image.height, image.rgba@)->0)
}

/// The key that a poll result would be remembered under, if it yields
/// content.
pub open spec fn read_key(read: ClipboardRead, config: ClipboardConfig) -> Option<u64> {
    match read {
        ClipboardRead::Text(t) => if ignored_text(trim(t@)) {
            None
        } else {
            Some(text_key(t@))
        },
        ClipboardRead::Image(img) => if image_processable(img) {
            Some(image_key(img))
        } else {
            None
        },
        ClipboardRead::Unavailable(_) => None,
    }
}

/// Whether a poll result is stored, given the key of the last content seen.
pub open spec fn emits(last: Option<u64>, read: ClipboardRead, config: ClipboardConfig) -> bool {
    match read_key(read, config) {
        Some(k) => last != Some(k),
        None => false,
    }
}

/// The key of the last content seen after a poll: the new content's key,
/// nothing after a failed read, and otherwise the key seen before.
pub open spec fn next_last_hash(last: Option<u64>, read: ClipboardRead, config: ClipboardConfig) -> Option<u64> {
    match read {
        ClipboardRead::Unavailable(_) => None,
        _ => match read_key(read, config) {
            Some(k) => Some(k),
            None => last,
        },
    }
}

/// Whether `action` is what the watcher does for `read`.
pub open spec fn action_matches(
    last: Option<u64>,
    read: ClipboardRead,
    config: ClipboardConfig,
    action: WatchAction,
) -> bool {
    match read {
        ClipboardRead::Text(t) => if emits(last, read, config) {
            action matches WatchAction::Emit(c) && text_content_matches(t@, config, c)
        } else {
            action is Skip
        },
        ClipboardRead::Image(img) => if !image_processable(img) {
            action is ImageUnprocessable
        } else if emits(last, read, config) {
            action matches WatchAction::Emit(c) && image_content_matches(
                img,
                config,
                c,
            )
        } else {
            action is Skip
        },
        ClipboardRead::Unavailable(msg) => action == WatchAction::ReadFailed {
            log: failure_worth_reporting(msg@),
        },
    }
}

/// Whether processing a poll result stays within memory's address range:
/// only an image read can reach the encoders.
pub open spec fn read_fits_memory(read: ClipboardRead, config: ClipboardConfig) -> bool {
    read matches ClipboardRead::Image(img) ==> image_fits_memory(img, config)
}

/// Whether processing a poll result stays within memory's address range.
pub fn read_fits_memory_exec(read: &ClipboardRead, config: &ClipboardConfig) -> (r: bool)
    ensures
        r == read_fits_memory(*read, *config),
{
    match read {
        ClipboardRead::Image(img) => {
            let processable = img.width > 0 && img.height > 0 && match img.width.checked_mul(img.height) {
                Some(p) => match p.checked_mul(4) {
                    Some(e) => img.rgba.len() == e as usize,
                    None => false,
                },
                None => false,
            };
            if !processable {
                proof {
                    if img.width * img.height > u32::MAX {
                        assert(img.width * img.height * 4 > u32::MAX) by (nonlinear_arith)
                            requires
                                img.width * img.height > u32::MAX,
                        ;
                    }
                }
                return true;
            }
            let m: u64 = if config.preview_max_dim == 0 {
                1
            } else {
                config.preview_max_dim as u64
            };
            let limit: u64 = isize::MAX as u64;
            let w: u64 = img.width as u64;
            proof {
                assert(w * m <= 0xffff_ffff * 0xffff_ffff) by (nonlinear_arith)
                    requires
                        w <= 0xffff_ffff,
                        m <= 0xffff_ffff,
                ;
                assert(m * m <= 0xffff_ffff * 0xffff_ffff) by (nonlinear_arith)
                    requires
                        m <= 0xffff_ffff,
                ;
            }
            let wm = w * m;
            let mm = m * m;
            wm <= limit / 16 && mm <= limit / 4
        },
        _ => true,
    }
}

/// The clipboard watcher's memory between polls.
pub struct WatcherState {
    /// The key of the last content seen, if any.
    pub last_hash: Option<u64>,
}

impl WatcherState {
    /// A watcher that has seen nothing yet.
    pub fn new() -> (r: WatcherState)
        ensures
            r.last_hash is None,
    {
        WatcherState { last_hash: None }
    }

    /// Decides what to do with one poll of the clipboard: content that
    /// differs from the last content seen is stored, the same content
    /// again is skipped, and a failed read forgets the last content.
    pub fn observe(&mut self, read: ClipboardRead, config: &ClipboardConfig) -> (r: WatchAction)
        requires
            read_fits_memory(read, *config),
        ensures
            action_matches(old(self).last_hash, read, *config, r),
            final(self).last_hash == next_last_hash(old(self).last_hash, read, *config),
    {
        match read {
            ClipboardRead::Text(t) => {
                match process_text(t.as_str(), config) {
                    Some(content) => {
                        let cs = chars_of(t.as_str());
                        let tc = trim_chars(cs.as_slice());
                        let trimmed = string_from_chars(tc.as_slice());
                        let key = xxh3_64(trimmed.as_str().as_bytes());
                        if self.last_hash == Some(key) {
                            WatchAction::Skip
                        } else {
                            self.last_hash = Some(key);
                            WatchAction::Emit(content)
                        }
                    },
                    None => WatchAction::Skip,
                }
            },
            ClipboardRead::Image(img) => {
                let ghost img_v = img;
                match process_image(img, config) {
                    Some(content) => {
                        let hc = chars_of(content.hash());
                        let key = match parse_hex_u64_chars(hc.as_slice()) {
                            Some(k) => k,
                            None => 0,
                        };
                        proof {
                            let png = png_encoding(img_v.width, img_v.height, img_v.rgba@)->0;
                            lemma_hex16_roundtrip(xxh3_64_of(png));
                        }
                        if self.last_hash == Some(key) {
                            WatchAction::Skip
                        } else {
                            self.last_hash = Some(key);
                            WatchAction::Emit(content)
                        }
                    },
                    None => WatchAction::ImageUnprocessable,
                }
            },
            ClipboardRead::Unavailable(msg) => {
                let log = read_failure_worth_reporting(msg.as_str());
                self.last_hash = None;
                WatchAction::ReadFailed { log }
            },
        }
    }
}

/// Reading the same clipboard contents twice in a row stores them at most
/// once: right after a poll, the same poll result is never stored.
pub proof fn law_same_read_not_stored_twice(last: Option<u64>, read: ClipboardRead, config: ClipboardConfig)
    ensures
        !emits(next_last_hash(last, read, config), read, config),
{
}

/// After a failed read, the watcher stores the next text that it does not
/// ignore, whatever it had seen before.
pub proof fn law_failed_read_forgets(last: Option<u64>, msg: String, text: String, config: ClipboardConfig)
    ensures
        emits(next_last_hash(last, ClipboardRead::Unavailable(msg), config), ClipboardRead::Text(text), config)
            <==> !ignored_text(trim(text@)),
{
}

/// Text that differs only in leading or trailing whitespace is the same
/// content to the watcher.
pub proof fn law_text_key_ignores_surrounding_space(a: Seq<char>, b: Seq<char>)
    requires
        trim(a) == trim(b),
    ensures
        text_key(a) == text_key(b),
{
}

/// The key the watcher remembers after the polls `reads`, starting from
/// `last`.
pub open spec fn remembered_after(last: Option<u64>, reads: Seq<ClipboardRead>, config: ClipboardConfig) -> Option<
    u64,
>
    decreases reads.len(),
{
    if reads.len() == 0 {
        last
    } else {
        next_last_hash(remembered_after(last, reads.drop_last(), config), reads.last(), config)
    }
}

/// The key of the last content stored during the polls `reads` since the
/// last poll on which nothing could be read (none at the start).
pub open spec fn last_stored_since_failure(reads: Seq<ClipboardRead>, config: ClipboardConfig) -> Option<u64>
    decreases reads.len(),
{
    if reads.len() == 0 {
        None
    } else {
        let prev = last_stored_since_failure(reads.drop_last(), config);
        let r = reads.last();
        if r is Unavailable {
            None
        } else if emits(prev, r, config) {
            read_key(r, config)
        } else {
            prev
        }
    }
}

proof fn lemma_remembered_is_last_stored(reads: Seq<ClipboardRead>, config: ClipboardConfig)
    ensures
        remembered_after(None, reads, config) == last_stored_since_failure(reads, config),
    decreases reads.len(),
{
    if reads.len() > 0 {
        lemma_remembered_is_last_stored(reads.drop_last(), config);
    }
}

/// Over a stream of polls, a fresh watcher stores the content of poll `k`
/// exactly when that poll yields content whose key differs from the key of
/// the last content stored since the last poll on which nothing could be
/// read.
pub proof fn law_watcher_stores_changes_since_failure(reads: Seq<ClipboardRead>, config: ClipboardConfig, k: int)
    requires
        0 <= k < reads.len(),
    ensures
        emits(remembered_after(None, reads.take(k), config), reads[k], config) <==> (read_key(
            reads[k],
            config,
        ) matches Some(key) && last_stored_since_failure(reads.take(k), config) != Some(key)),
{
    lemma_remembered_is_last_stored(reads.take(k), config);
}

/// Whether content must be handed to the writer, given the answer of the
/// store to "is this hash already stored?": only a definite yes skips it;
/// where the lookup failed, the content is stored anyway.
pub fn needs_store<E>(already_stored: &Result<bool, E>) -> (r: bool)
    ensures
        r == !(already_stored matches Ok(true)),
{
    match already_stored {
        Ok(true) => false,
        _ => true,
    }
}

} // verus!
