//! Screen-sharing sources: how monitors and windows are listed and named
//! (`mon_<index>`, `win_<id>`), which one a source id designates, and how a
//! grabbed frame becomes a JPEG file (through the `image` crate). The pixels
//! themselves are grabbed by the application.

use vstd::prelude::*;
use crate::crypto::strip_prefix;
use crate::text::{chars_of, decimal, digit_char, push_decimal, to_owned_string, trim, trimmed};

verus! {

/// Why capturing failed.
#[derive(Debug, Clone, PartialEq, Eq)]
pub enum CaptureError {
    /// The capture backend failed; its explanation.
    Backend(String),
    /// Target window or monitor not found.
    TargetNotFound(String),
    /// Capture failed: empty frame.
    EmptyFrame,
}

/// What a source is.
#[derive(Debug, Clone, Copy, PartialEq, Eq)]
pub enum TargetKind {
    Monitor,
    Window,
}

/// A monitor or window that can be shared.
#[derive(Debug, Clone, PartialEq, Eq)]
pub struct CaptureSource {
    pub id: String,
    pub title: String,
    pub kind: TargetKind,
    pub width: u32,
    pub height: u32,
    pub app_name: Option<String>,
}

/// One captured frame, RGBA.
#[derive(Clone)]
pub struct VideoRawFrame {
    pub width: u32,
    pub height: u32,
    pub rgba_data: Vec<u8>,
    pub timestamp_ms: u64,
}

/// What to grab a frame from.
#[derive(Debug, Clone, Copy, PartialEq, Eq)]
pub enum CaptureTarget {
    /// The monitor at this position in the monitor list.
    Monitor(usize),
    /// The window with this id.
    Window(u32),
}

// ---------------------------------------------------------------------------
// Decimal numbers as `str::parse` reads them
// ---------------------------------------------------------------------------

/// A decimal digit character.
pub open spec fn is_digit(c: char) -> bool {
    '0' <= c <= '9'
}

/// The value of a string of decimal digits.
pub open spec fn digits_value(s: Seq<char>) -> nat
    decreases s.len(),
{
    if s.len() == 0 {
        0
    } else {
        digits_value(s.drop_last()) * 10 + ((s.last() as u32) - 48) as nat
    }
}

/// The number a text stands for as an unsigned decimal: an optional `+`,
/// then one or more digits.
pub open spec fn decimal_value(s: Seq<char>) -> Option<nat> {
    let d = unsigned_digits(s);
    if d.len() > 0 && all_digits(d) {
        Some(digits_value(d))
    } else {
        None
    }
}

/// The text after an optional leading `+`.
pub open spec fn unsigned_digits(s: Seq<char>) -> Seq<char> {
    if s.len() > 0 && s[0] == '+' { s.skip(1) } else { s }
}

/// Every character is a decimal digit.
pub open spec fn all_digits(d: Seq<char>) -> bool {
    forall|i: int| 0 <= i < d.len() ==> is_digit(#[trigger] d[i])
}

proof fn lemma_digits_value_grows(s: Seq<char>, k: int)
    requires
        0 <= k <= s.len(),
        forall|i: int| 0 <= i < s.len() ==> is_digit(#[trigger] s[i]),
    ensures
        digits_value(s.take(k)) <= digits_value(s),
    decreases s.len(),
{
    if k < s.len() {
        assert(s.drop_last().take(k) =~= s.take(k));
        lemma_digits_value_grows(s.drop_last(), k);
    } else {
        assert(s.take(k) =~= s);
    }
}

/// Reads an unsigned decimal no greater than `max`, as `str::parse` does
/// for unsigned integers: `None` for anything else, overflow included.
pub fn parse_unsigned(s: &str, max: u64) -> (res: Option<u64>)
    ensures
        match res {
            Some(v) => decimal_value(s@) == Some(v as nat) && v <= max,
            None => match decimal_value(s@) {
                Some(v) => v > max,
                None => true,
            },
        },
{
    let cs = chars_of(s);
    let start: usize = if cs.len() > 0 && cs[0] == '+' { 1 } else { 0 };
    let ghost d = unsigned_digits(s@);
    assert(d =~= s@.skip(start as int));
    if start >= cs.len() {
        return None;
    }
    let mut acc: u64 = 0;
    let mut i: usize = start;
    while i < cs.len()
        invariant
            cs@ == s@,
            d == unsigned_digits(s@),
            d == s@.skip(start as int),
            start <= i <= cs@.len(),
            start < cs@.len(),
            forall|j: int| start <= j < i ==> is_digit(#[trigger] cs@[j]),
            acc == digits_value(d.take(i - start)),
            acc <= max,
        decreases cs@.len() - i,
    {
        let c = cs[i];
        assert(d[i - start] == cs@[i as int]);
        if !('0' <= c && c <= '9') {
            proof {
                assert(!is_digit(d[i - start]));
                assert(!all_digits(d));
                assert(decimal_value(s@) is None);
            }
            return None;
        }
        let v = (c as u32 - 48) as u64;
        assert(d.take(i - start + 1).drop_last() =~= d.take(i - start));
        assert(d.take(i - start + 1).last() == c);
        if v > max || acc > (max - v) / 10 {
            proof {
                assert(digits_value(d.take(i - start + 1)) == acc * 10 + v);
                if v <= max {
                    assert(acc * 10 + v > max) by (nonlinear_arith)
                        requires
                            acc > (max - v) / 10,
                            v <= max,
                    ;
                }
                let k = i - start + 1;
                if all_digits(d) {
                    lemma_digits_value_grows(d, k);
                    assert(decimal_value(s@) == Some(digits_value(d)));
                    assert(digits_value(d) > max);
                } else {
                    assert(decimal_value(s@) is None);
                }
            }
            return None;
        }
        assert(acc * 10 + v <= max) by (nonlinear_arith)
            requires
                acc <= (max - v) / 10,
                v <= 9,
        ;
        acc = acc * 10 + v;
        i = i + 1;
    }
    assert(d.take(cs@.len() - start) =~= d);
    Some(acc)
}

/// Writing a number in decimal and reading it back gives the number.
pub proof fn lemma_decimal_roundtrip(n: nat)
    ensures
        decimal_value(decimal(n)) == Some(n),
    decreases n,
{
    lemma_decimal_digits(n);
}

proof fn lemma_decimal_digits(n: nat)
    ensures
        decimal(n).len() > 0,
        forall|i: int| 0 <= i < decimal(n).len() ==> is_digit(#[trigger] decimal(n)[i]),
        decimal(n)[0] != '+',
        digits_value(decimal(n)) == n,
    decreases n,
{
    if n < 10 {
        assert(decimal(n) == seq![digit_char(n as int)]);
        assert(decimal(n).drop_last() =~= Seq::<char>::empty());
        assert(digit_char(n as int) as u32 == n + 48);
        assert(digits_value(Seq::<char>::empty()) == 0);
    } else {
        assert(digit_char((n % 10) as int) as u32 == n % 10 + 48);
        assert(n == (n / 10) * 10 + n % 10) by (nonlinear_arith);
        lemma_decimal_digits(n / 10);
        let p = decimal(n / 10);
        assert(decimal(n) == p.push(digit_char((n % 10) as int)));
        assert(decimal(n).drop_last() =~= p);
        assert forall|i: int| 0 <= i < decimal(n).len() implies is_digit(#[trigger] decimal(n)[i]) by {
            if i < p.len() {
                assert(decimal(n)[i] == p[i]);
            }
        }
    }
}

// ---------------------------------------------------------------------------
// Sources
// ---------------------------------------------------------------------------

/// The id of the monitor at position `index`.
pub open spec fn monitor_id_of(index: usize) -> Seq<char> {
    "mon_"@ + decimal(index as nat)
}

/// The id of the window with id `window_id`.
pub open spec fn window_id_of(window_id: u32) -> Seq<char> {
    "win_"@ + decimal(window_id as nat)
}

/// The source for the monitor at position `index`.
pub fn monitor_source(index: usize, name: String, width: u32, height: u32) -> (res: CaptureSource)
    ensures
        res.id@ == monitor_id_of(index),
        res.title == name,
        res.kind == TargetKind::Monitor,
        res.width == width,
        res.height == height,
        res.app_name is None,
{
    let mut id = to_owned_string("mon_");
    push_decimal(&mut id, index as u64);
    CaptureSource { id, title: name, kind: TargetKind::Monitor, width, height, app_name: None }
}

/// The source for a window, unless it is minimized or its title is blank.
pub fn window_source(
    window_id: u32,
    title: String,
    app_name: String,
    width: u32,
    height: u32,
    is_minimized: bool,
) -> (res: Option<CaptureSource>)
    ensures
        (trimmed(title@).len() == 0 || is_minimized) ==> res is None,
        !(trimmed(title@).len() == 0 || is_minimized) ==> (res matches Some(src) && {
            &&& src.id@ == window_id_of(window_id)
            &&& src.title == title
            &&& src.kind == TargetKind::Window
            &&& src.width == width
            &&& src.height == height
            &&& src.app_name == Some(app_name)
        }),
{
    let t = trim(title.as_str());
    if t.as_str().is_empty() || is_minimized {
        return None;
    }
    let mut id = to_owned_string("win_");
    push_decimal(&mut id, window_id as u64);
    Some(CaptureSource { id, title, kind: TargetKind::Window, width, height, app_name: Some(app_name) })
}

/// The target a source id designates: `mon_<n>` the monitor at `n`,
/// `win_<n>` the window `n` (an unreadable number counting as 0), anything
/// else the first monitor.
pub open spec fn capture_target_of(source_id: Seq<char>) -> CaptureTarget {
    if "mon_"@.is_prefix_of(source_id) {
        match decimal_value(source_id.skip(4)) {
            Some(v) if v <= usize::MAX => CaptureTarget::Monitor(v as usize),
            _ => CaptureTarget::Monitor(0),
        }
    } else if "win_"@.is_prefix_of(source_id) {
        match decimal_value(source_id.skip(4)) {
            Some(v) if v <= u32::MAX => CaptureTarget::Window(v as u32),
            _ => CaptureTarget::Window(0),
        }
    } else {
        CaptureTarget::Monitor(0)
    }
}

/// The target a source id designates.
pub fn capture_target(source_id: &str) -> (res: CaptureTarget)
    ensures
        res == capture_target_of(source_id@),
{
    proof {
        reveal_strlit("mon_");
        reveal_strlit("win_");
    }
    match strip_prefix(source_id, "mon_") {
        Some(rest) => match parse_unsigned(rest.as_str(), usize::MAX as u64) {
            Some(v) => CaptureTarget::Monitor(v as usize),
            None => CaptureTarget::Monitor(0),
        },
        None => match strip_prefix(source_id, "win_") {
            Some(rest) => match parse_unsigned(rest.as_str(), u32::MAX as u64) {
                Some(v) => CaptureTarget::Window(v as u32),
                None => CaptureTarget::Window(0),
            },
            None => CaptureTarget::Monitor(0),
        },
    }
}

/// The id under which a source is listed designates that very source.
pub proof fn lemma_source_id_roundtrip(index: usize, window_id: u32)
    ensures
        capture_target_of(monitor_id_of(index)) == CaptureTarget::Monitor(index),
        capture_target_of(window_id_of(window_id)) == CaptureTarget::Window(window_id),
{
    reveal_strlit("mon_");
    reveal_strlit("win_");
    let m = monitor_id_of(index);
    assert(m.subrange(0, 4) =~= "mon_"@);
    assert(m.skip(4) =~= decimal(index as nat));
    lemma_decimal_roundtrip(index as nat);
    let w = window_id_of(window_id);
    assert(w.subrange(0, 4) =~= "win_"@);
    assert(!"mon_"@.is_prefix_of(w)) by {
        if "mon_"@.is_prefix_of(w) {
            assert(w.subrange(0, 4)[0] == 'w');
        }
    }
    assert(w.skip(4) =~= decimal(window_id as nat));
    lemma_decimal_roundtrip(window_id as nat);
}

/// Grabs a frame from the source `source_id` designates, with `grab`
/// (which reaches the capture backend): the result is what `grab` gives for
/// `capture_target_of(source_id)`.
pub fn capture_source_frame<F: Fn(CaptureTarget) -> Result<VideoRawFrame, CaptureError>>(
    source_id: &str,
    grab: F,
) -> (res: Result<VideoRawFrame, CaptureError>)
    requires
        forall|t: CaptureTarget| grab.requires((t,)),
    ensures
        grab.ensures((capture_target_of(source_id@),), res),
{
    let target = capture_target(source_id);
    grab(target)
}

// ---------------------------------------------------------------------------
// JPEG compression through the `image` crate
// ---------------------------------------------------------------------------

/// An RGBA picture held by the `image` crate (an `image::RgbaImage`).
#[verifier::external_body]
pub struct RgbaPicture {
    img: image::RgbaImage,
}

/// An RGB picture held by the `image` crate (an `image::RgbImage`).
#[verifier::external_body]
pub struct RgbPicture {
    img: image::RgbImage,
}

#[verifier::external_type_specification]
#[verifier::external_body]
pub struct ExImageError(image::ImageError);

/// The bytes an RGBA picture holds.
pub uninterp spec fn rgba_picture_bytes(p: RgbaPicture) -> Seq<u8>;

/// The width and height of an RGBA picture.
pub uninterp spec fn rgba_picture_size(p: RgbaPicture) -> (u32, u32);

/// The bytes an RGB picture holds.
pub uninterp spec fn rgb_picture_bytes(p: RgbPicture) -> Seq<u8>;

/// The width and height of an RGB picture.
pub uninterp spec fn rgb_picture_size(p: RgbPicture) -> (u32, u32);

/// The bytes of the RGBA picture that `image::imageops::resize` with the
/// triangle filter makes of a `width` × `height` picture at the new size.
pub uninterp spec fn triangle_resized(
    bytes: Seq<u8>,
    width: u32,
    height: u32,
    new_width: u32,
    new_height: u32,
) -> Seq<u8>;

/// The bytes of the RGB picture that `DynamicImage::to_rgb8` makes of a
/// `width` × `height` RGBA picture.
pub uninterp spec fn rgb_from_rgba(bytes: Seq<u8>, width: u32, height: u32) -> Seq<u8>;

/// The JPEG file that the `image` crate's `JpegEncoder` writes for a
/// `width` × `height` RGB picture at `quality`.
pub uninterp spec fn jpeg_file(bytes: Seq<u8>, width: u32, height: u32, quality: u8) -> Seq<u8>;

/// `image::RgbaImage::from_raw`: a `width` × `height` picture over all of
/// `data`, when `data` holds at least four bytes per pixel.
#[verifier::external_body]
fn rgba_picture_from_raw(width: u32, height: u32, data: Vec<u8>) -> (res: Option<RgbaPicture>)
    ensures
        res is Some <==> 4 * width * height <= data@.len(),
        res matches Some(p) ==> rgba_picture_bytes(p) == data@,
        res matches Some(p) ==> rgba_picture_size(p) == (width, height),
{
    match image::RgbaImage::from_raw(width, height, data) {
        Some(img) => Some(RgbaPicture { img }),
        None => None,
    }
}

/// `image::imageops::resize` with `FilterType::Triangle`: a new picture of
/// `new_width` × `new_height`. The intermediate buffer (four `f32` per pixel
/// of the old width and the new height) and the result must be allocatable.
#[verifier::external_body]
fn rgba_picture_resize(p: &RgbaPicture, new_width: u32, new_height: u32) -> (res: RgbaPicture)
    requires
        16 * rgba_picture_size(*p).0 * new_height <= isize::MAX,
        4 * new_width * new_height <= isize::MAX,
    ensures
        rgba_picture_size(res) == (new_width, new_height),
        rgba_picture_bytes(res) == triangle_resized(
            rgba_picture_bytes(*p),
            rgba_picture_size(*p).0,
            rgba_picture_size(*p).1,
            new_width,
            new_height,
        ),
{
    RgbaPicture { img: image::imageops::resize(&p.img, new_width, new_height, image::imageops::FilterType::Triangle) }
}

/// `DynamicImage::ImageRgba8(..).to_rgb8()`: the picture converted to RGB,
/// same size.
#[verifier::external_body]
fn rgb_picture_of(p: RgbaPicture) -> (res: RgbPicture)
    ensures
        rgb_picture_size(res) == rgba_picture_size(p),
        rgb_picture_bytes(res) == rgb_from_rgba(rgba_picture_bytes(p), rgba_picture_size(p).0, rgba_picture_size(p).1),
{
    RgbPicture { img: image::DynamicImage::ImageRgba8(p.img).to_rgb8() }
}

/// `JpegEncoder::new_with_quality` and `encode_image`, into a `Vec`: the
/// JPEG file of the picture. The encoder refuses a width or height outside
/// `1..=65535`; writing into a `Vec` does not fail otherwise.
#[verifier::external_body]
fn jpeg_encode(p: &RgbPicture, quality: u8) -> (res: Result<Vec<u8>, image::ImageError>)
    ensures
        res is Ok <==> (1 <= rgb_picture_size(*p).0 <= 65535 && 1 <= rgb_picture_size(*p).1 <= 65535),
        res matches Ok(b) ==> b@ == jpeg_file(
            rgb_picture_bytes(*p),
            rgb_picture_size(*p).0,
            rgb_picture_size(*p).1,
            quality,
        ),
{
    let mut out = Vec::new();
    let result = image::codecs::jpeg::JpegEncoder::new_with_quality(&mut out, quality).encode_image(&p.img);
    match result {
        Ok(()) => Ok(out),
        Err(e) => Err(e),
    }
}

/// The `Display` text of an `image` crate error.
#[verifier::external_body]
fn image_error_text(e: &image::ImageError) -> String {
    e.to_string()
}

/// At least one.
pub open spec fn at_least_one(n: u32) -> u32 {
    if n >= 1 { n } else { 1 }
}

/// The size a frame is encoded at: `max_width` × `scaled_height` (at least
/// one row) when the frame is wider than `max_width`, else its own size.
pub open spec fn jpeg_size(width: u32, height: u32, max_width: u32, scaled_height: u32) -> (u32, u32) {
    if width > max_width {
        (max_width, at_least_one(scaled_height))
    } else {
        (width, height)
    }
}

/// The JPEG file of a frame: downscaled when wider than `max_width`,
/// converted to RGB, encoded at `quality`.
pub open spec fn frame_jpeg(
    rgba: Seq<u8>,
    width: u32,
    height: u32,
    max_width: u32,
    scaled_height: u32,
    quality: u8,
) -> Seq<u8> {
    let (w, h) = jpeg_size(width, height, max_width, scaled_height);
    let pixels = if width > max_width {
        triangle_resized(rgba, width, height, w, h)
    } else {
        rgba
    };
    jpeg_file(rgb_from_rgba(pixels, w, h), w, h, quality)
}

/// The frame's buffer holds four bytes for each of its pixels.
pub open spec fn frame_fits(frame: VideoRawFrame) -> bool {
    4 * frame.width * frame.height <= frame.rgba_data@.len()
}

/// Compresses a frame to JPEG for sending: a frame wider than `max_width`
/// is first downscaled to `max_width` × `scaled_height` (the height that
/// keeps its proportions; at least one row). A buffer too small for the
/// frame's size is `EmptyFrame`; a size the encoder refuses is
/// `TargetNotFound` with the encoder's message.
pub fn compress_frame_to_jpeg(frame: &VideoRawFrame, max_width: u32, quality: u8, scaled_height: u32) -> (res: Result<
    Vec<u8>,
    CaptureError,
>)
    requires
        frame.width > max_width ==> 16 * frame.width * at_least_one(scaled_height) <= isize::MAX,
        frame.width > max_width ==> 4 * max_width * at_least_one(scaled_height) <= isize::MAX,
    ensures
        (res matches Err(CaptureError::EmptyFrame)) <==> !frame_fits(*frame),
        res is Ok <==> frame_fits(*frame) && ({
            let (w, h) = jpeg_size(frame.width, frame.height, max_width, scaled_height);
            1 <= w <= 65535 && 1 <= h <= 65535
        }),
        res matches Err(e) ==> (e is EmptyFrame || e is TargetNotFound),
        res matches Ok(b) ==> b@ == frame_jpeg(
            frame.rgba_data@,
            frame.width,
            frame.height,
            max_width,
            scaled_height,
            quality,
        ),
{
    let raw = match rgba_picture_from_raw(frame.width, frame.height, frame.rgba_data.clone()) {
        Some(p) => p,
        None => return Err(CaptureError::EmptyFrame),
    };
    let rgb = if frame.width > max_width {
        let h = if scaled_height >= 1 { scaled_height } else { 1 };
        let resized = rgba_picture_resize(&raw, max_width, h);
        rgb_picture_of(resized)
    } else {
        rgb_picture_of(raw)
    };
    match jpeg_encode(&rgb, quality) {
        Ok(bytes) => Ok(bytes),
        Err(e) => Err(CaptureError::TargetNotFound(image_error_text(&e))),
    }
}

} // verus!
