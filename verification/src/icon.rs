//! Icons rendered as `data:` URIs: standard padded base64, the mime type
//! of a manifest's icon file by extension, and the PNG encoding of an
//! extracted executable icon bitmap.

use vstd::prelude::*;

use crate::model::opt_view;
use crate::store::opt_str;
use crate::text::{lower_seq, push_all, push_char};

verus! {

/// Largest manifest icon file inlined as a data URI.
pub const MAX_ICON_BYTES: u64 = 512 * 1024;

/// The character of a 6-bit value in the standard base64 alphabet.
pub open spec fn b64_digit(v: int) -> char {
    if v < 26 {
        (65 + v) as char
    } else if v < 52 {
        (97 + (v - 26)) as char
    } else if v < 62 {
        (48 + (v - 52)) as char
    } else if v == 62 {
        '+'
    } else {
        '/'
    }
}

/// One group of one to three bytes as four base64 characters; a short
/// group is zero-filled and padded with `=`.
pub open spec fn b64_group(g: Seq<u8>) -> Seq<char> {
    let b0 = g[0] as int;
    let b1 = if g.len() > 1 { g[1] as int } else { 0 };
    let b2 = if g.len() > 2 { g[2] as int } else { 0 };
    let n = b0 * 65536 + b1 * 256 + b2;
    seq![
        b64_digit((n / 262144) % 64),
        b64_digit((n / 4096) % 64),
        if g.len() > 1 { b64_digit((n / 64) % 64) } else { '=' },
        if g.len() > 2 { b64_digit(n % 64) } else { '=' },
    ]
}

/// Standard, padded base64 of `data`, three bytes at a time.
pub open spec fn base64_spec(data: Seq<u8>) -> Seq<char>
    decreases data.len(),
{
    if data.len() == 0 {
        Seq::empty()
    } else if data.len() <= 3 {
        b64_group(data)
    } else {
        b64_group(data.take(3)) + base64_spec(data.skip(3))
    }
}

/// `data:<mime>;base64,<payload>`.
pub open spec fn data_uri_spec(mime: Seq<char>, data: Seq<u8>) -> Seq<char> {
    "data:"@ + mime + ";base64,"@ + base64_spec(data)
}

fn b64_char(v: u32) -> (c: char)
    requires
        v < 64,
    ensures
        c == b64_digit(v as int),
{
    if v < 26 {
        let b: u8 = (65 + v) as u8;
        b as char
    } else if v < 52 {
        let b: u8 = (97 + (v - 26)) as u8;
        b as char
    } else if v < 62 {
        let b: u8 = (48 + (v - 52)) as u8;
        b as char
    } else if v == 62 {
        '+'
    } else {
        '/'
    }
}

/// Standard base64 (padded) of `data`.
pub fn base64_encode(data: &[u8]) -> (r: String)
    ensures
        r@ == base64_spec(data@),
{
    let mut out = String::new();
    let n = data.len();
    let mut i: usize = 0;
    proof {
        assert(data@.skip(0) =~= data@);
        assert(out@ + base64_spec(data@.skip(0)) =~= base64_spec(data@));
    }
    while i < n
        invariant
            i <= n,
            n == data@.len(),
            out@ + base64_spec(data@.skip(i as int)) == base64_spec(data@),
        decreases n - i,
    {
        let rest = n - i;
        let b0 = data[i] as u32;
        let b1: u32 = if rest > 1 { data[i + 1] as u32 } else { 0 };
        let b2: u32 = if rest > 2 { data[i + 2] as u32 } else { 0 };
        let v: u32 = b0 * 65536 + b1 * 256 + b2;
        let c0 = b64_char((v / 262144) % 64);
        let c1 = b64_char((v / 4096) % 64);
        let c2 = if rest > 1 { b64_char((v / 64) % 64) } else { '=' };
        let c3 = if rest > 2 { b64_char(v % 64) } else { '=' };
        let ghost before = out@;
        let ghost tail = data@.skip(i as int);
        let ghost g = if rest <= 3 { tail } else { tail.take(3) };
        proof {
            assert(g[0] == data@[i as int]);
            if rest > 1 {
                assert(g[1] == data@[i + 1]);
            }
            if rest > 2 {
                assert(g[2] == data@[i + 2]);
            }
            assert(b64_group(g) =~= seq![c0, c1, c2, c3]);
        }
        push_char(&mut out, c0);
        push_char(&mut out, c1);
        push_char(&mut out, c2);
        push_char(&mut out, c3);
        assert(out@ =~= before + b64_group(g));
        if rest > 3 {
            proof {
                assert(tail.skip(3) =~= data@.skip(i + 3));
                assert(base64_spec(tail) == b64_group(g) + base64_spec(tail.skip(3)));
                assert(out@ + base64_spec(data@.skip(i + 3)) =~= before + base64_spec(tail));
            }
            i = i + 3;
        } else {
            proof {
                assert(base64_spec(tail) == b64_group(g));
                assert(data@.skip(n as int) =~= Seq::<u8>::empty());
                assert(out@ + base64_spec(data@.skip(n as int)) =~= before + base64_spec(tail));
            }
            i = n;
        }
    }
    proof {
        assert(data@.skip(n as int) =~= Seq::<u8>::empty());
        assert(out@ + Seq::<char>::empty() =~= out@);
    }
    out
}

/// `data:<mime>;base64,<base64 of data>`.
pub fn data_uri(mime: &str, data: &[u8]) -> (r: String)
    ensures
        r@ == data_uri_spec(mime@, data@),
{
    let mut s = String::from_str("data:");
    push_all(&mut s, mime);
    push_all(&mut s, ";base64,");
    let b = base64_encode(data);
    push_all(&mut s, b.as_str());
    s
}

// ---------------------------------------------------------------------------
// Manifest icon files
// ---------------------------------------------------------------------------

/// The mime type of an icon file by its (ASCII case-insensitive) extension;
/// `None` for an extension that is not an image format we inline.
pub open spec fn icon_mime_spec(ext: Seq<char>) -> Option<Seq<char>> {
    let e = lower_seq(ext);
    if e == "png"@ {
        Some("image/png"@)
    } else if e == "jpg"@ || e == "jpeg"@ {
        Some("image/jpeg"@)
    } else if e == "gif"@ {
        Some("image/gif"@)
    } else if e == "webp"@ {
        Some("image/webp"@)
    } else if e == "svg"@ {
        Some("image/svg+xml"@)
    } else if e == "ico"@ {
        Some("image/x-icon"@)
    } else if e == "bmp"@ {
        Some("image/bmp"@)
    } else {
        None
    }
}

/// The mime type for an icon file with extension `ext`.
pub fn icon_mime(ext: &str) -> (r: Option<&'static str>)
    ensures
        opt_str(r) == icon_mime_spec(ext@),
{
    let e = crate::text::to_lower(ext);
    let e = e.as_str();
    if crate::text::str_eq(e, "png") {
        Some("image/png")
    } else if crate::text::str_eq(e, "jpg") || crate::text::str_eq(e, "jpeg") {
        Some("image/jpeg")
    } else if crate::text::str_eq(e, "gif") {
        Some("image/gif")
    } else if crate::text::str_eq(e, "webp") {
        Some("image/webp")
    } else if crate::text::str_eq(e, "svg") {
        Some("image/svg+xml")
    } else if crate::text::str_eq(e, "ico") {
        Some("image/x-icon")
    } else if crate::text::str_eq(e, "bmp") {
        Some("image/bmp")
    } else {
        None
    }
}

/// Whether an icon file with extension `ext` (if it has one) and `size`
/// bytes is inlined, and with which mime type: unknown extensions and files
/// over `MAX_ICON_BYTES` are not.
pub open spec fn icon_file_mime_spec(ext: Option<Seq<char>>, size: u64) -> Option<Seq<char>> {
    match ext {
        None => None,
        Some(e) => if size > MAX_ICON_BYTES {
            None
        } else {
            icon_mime_spec(e)
        },
    }
}

/// The mime type to inline an icon file under, or `None` when it is not
/// inlined (no or unknown extension, or oversized).
pub fn icon_file_mime(ext: Option<&str>, size: u64) -> (r: Option<&'static str>)
    ensures
        opt_str(r) == icon_file_mime_spec(opt_str(ext), size),
{
    match ext {
        None => None,
        Some(e) => {
            let m = icon_mime(e);
            if m.is_none() || size > MAX_ICON_BYTES {
                None
            } else {
                m
            }
        },
    }
}

// ---------------------------------------------------------------------------
// Executable icon bitmaps
// ---------------------------------------------------------------------------

/// 32-bit BGRA pixels as RGBA: in each whole four-byte pixel the first and
/// third bytes trade places; a trailing partial pixel is left as it is.
pub open spec fn bgra_to_rgba_spec(px: Seq<u8>) -> Seq<u8> {
    Seq::new(
        px.len(),
        |i: int|
            {
                let start = i - i % 4;
                if start + 4 <= px.len() && i % 4 == 0 {
                    px[i + 2]
                } else if start + 4 <= px.len() && i % 4 == 2 {
                    px[i - 2]
                } else {
                    px[i]
                }
            },
    )
}

/// Swaps the blue and red bytes of every whole pixel, in place.
pub fn bgra_to_rgba(px: &mut Vec<u8>)
    ensures
        final(px)@ == bgra_to_rgba_spec(old(px)@),
{
    let ghost orig = px@;
    let n = px.len();
    let mut i: usize = 0;
    while n - i >= 4
        invariant
            n == orig.len(),
            px@.len() == n,
            i % 4 == 0,
            i <= n,
            forall|j: int| 0 <= j < i ==> #[trigger] px@[j] == bgra_to_rgba_spec(orig)[j],
            forall|j: int| i <= j < n ==> #[trigger] px@[j] == orig[j],
        decreases n - i,
    {
        let a = px[i];
        let c = px[i + 2];
        px.set(i, c);
        px.set(i + 2, a);
        proof {
            assert forall|j: int| 0 <= j < i + 4 implies #[trigger] px@[j] == bgra_to_rgba_spec(
                orig,
            )[j] by {
                if j >= i {
                    assert(j - j % 4 == i);
                }
            }
        }
        i = i + 4;
    }
    proof {
        assert forall|j: int| 0 <= j < n implies #[trigger] px@[j] == bgra_to_rgba_spec(orig)[j] by {
            if j >= i {
                assert(j - j % 4 + 4 > n);
            }
        }
        assert(px@ =~= bgra_to_rgba_spec(orig));
    }
}

/// The PNG file that the `png` crate writes for an 8-bit RGBA image of
/// `width` x `height` pixels, or `None` where it refuses the image.
pub uninterp spec fn png_rgba8(width: u32, height: u32, rgba: Seq<u8>) -> Option<Seq<u8>>;

pub open spec fn opt_bytes(o: Option<Vec<u8>>) -> Option<Seq<u8>> {
    match o {
        Some(v) => Some(v@),
        None => None,
    }
}

/// `png::Encoder::new` on a `Vec`, with colour type RGBA and bit depth 8,
/// then `write_header` and `write_image_data`; the bytes written once the
/// writer is dropped. The result is named by `png_rgba8`. The crate's
/// source refuses a zero width or height (`write_header`) and image data
/// whose length is not four bytes per pixel (`write_image_data`), and
/// otherwise succeeds: every write goes into the `Vec`, and the image data
/// is cut into chunks the chunk writer accepts. `requires` keeps the byte
/// count of the image within `usize`, where the crate computes it.
#[verifier::external_body]
fn encode_png(width: u32, height: u32, rgba: &[u8]) -> (r: Option<Vec<u8>>)
    requires
        4 * width * height <= usize::MAX,
    ensures
        opt_bytes(r) == png_rgba8(width, height, rgba@),
        r is Some <==> (width > 0 && height > 0 && rgba@.len() == 4 * width * height),
{
    let mut out: Vec<u8> = Vec::new();
    {
        let mut enc = png::Encoder::new(&mut out, width, height);
        enc.set_color(png::ColorType::Rgba);
        enc.set_depth(png::BitDepth::Eight);
        let mut writer = enc.write_header().ok()?;
        writer.write_image_data(rgba).ok()?;
    }
    Some(out)
}

/// `data:image/png;base64,...` for the bytes of a PNG file.
pub fn png_data_uri(png: &[u8]) -> (r: String)
    ensures
        r@ == data_uri_spec("image/png"@, png@),
{
    data_uri("image/png", png)
}

/// The data URI of an extracted icon bitmap (`width` x `height` BGRA
/// pixels, top-down): the pixels as RGBA, encoded as PNG.
pub open spec fn bitmap_data_uri_spec(width: u32, height: u32, bgra: Seq<u8>) -> Option<
    Seq<char>,
> {
    if bgra.len() == 4 * width * height {
        match png_rgba8(width, height, bgra_to_rgba_spec(bgra)) {
            Some(p) => Some(data_uri_spec("image/png"@, p)),
            None => None,
        }
    } else {
        None
    }
}

/// PNG data URI for an extracted icon bitmap; `None` exactly where the
/// image is empty or the pixel buffer does not hold `width` x `height`
/// pixels.
pub fn bitmap_data_uri(width: u32, height: u32, bgra: Vec<u8>) -> (r: Option<String>)
    ensures
        opt_view(r) == bitmap_data_uri_spec(width, height, bgra@),
        r is Some <==> (width > 0 && height > 0 && bgra@.len() == 4 * width * height),
{
    let w = width as u64;
    let h = height as u64;
    proof {
        assert(w * h <= 0xffff_fffe_0000_0001) by (nonlinear_arith)
            requires
                w <= 0xffff_ffff,
                h <= 0xffff_ffff,
        ;
    }
    let wh: u64 = w * h;
    let len = bgra.len() as u64;
    assert(len == bgra@.len());
    let fits = match wh.checked_mul(4) {
        Some(e) => e == len,
        None => false,
    };
    proof {
        assert(4 * width * height == wh * 4) by (nonlinear_arith)
            requires
                wh == w * h,
                w == width,
                h == height,
        ;
    }
    if !fits {
        assert(bgra@.len() != 4 * width * height);
        return None;
    }
    let mut px = bgra;
    bgra_to_rgba(&mut px);
    match encode_png(width, height, px.as_slice()) {
        Some(png) => Some(png_data_uri(png.as_slice())),
        None => None,
    }
}

} // verus!
