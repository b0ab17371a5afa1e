//! The debug "freshly fetched" marker: when enabled, a tile that was just
//! downloaded is hue-rotated by a random angle, colour-inverted, framed in
//! magenta and flagged non-cacheable, so freshly fetched tiles stand out in a
//! browser. With the toggle off, bytes pass through untouched.

use vstd::prelude::*;

verus! {

/// Relies on rand::random: nothing is promised of the drawn value.
pub assume_specification<T>[ rand::random::<T> ]() -> (r: T)
    where
        rand::distributions::Standard: rand::distributions::Distribution<T>,
;

/// The PNG encoding of a `w` by `h` RGBA image, named so that contracts can
/// speak of it; only the trusted encoder below gives it meaning.
pub uninterp spec fn png_rgba_of(w: nat, h: nat, pixels: Seq<u8>) -> Seq<u8>;

/// The decoded RGBA form of a byte string — dimensions and flat pixel buffer
/// when the bytes decode as an image, `None` otherwise — named so that
/// contracts can speak of it. Only the trusted decoder below gives it
/// meaning.
pub uninterp spec fn decoded_rgba_of(png: Seq<u8>) -> Option<(u32, u32, Seq<u8>)>;

/// Relies on image::load_from_memory and DynamicImage::to_rgba8: decoding is
/// a function of the bytes alone; a decoded image is returned as its width,
/// height, and an RGBA buffer of exactly `w * h * 4` bytes; undecodable
/// bytes give `None`.
#[verifier::external_body]
fn decode_rgba(png: &Vec<u8>) -> (r: Option<(u32, u32, Vec<u8>)>)
    ensures
        (r matches Some(t) ==> decoded_rgba_of(png@) == Some((t.0, t.1, t.2@)) && t.2@.len()
            == t.0 as nat * t.1 as nat * 4),
        r is None ==> decoded_rgba_of(png@) is None,
{
    match image::load_from_memory(png) {
        Ok(img) => {
            let rgba = img.to_rgba8();
            Some((rgba.width(), rgba.height(), rgba.into_raw()))
        },
        Err(_) => None,
    }
}

/// Relies on image::imageops::huerotate: the rotated image keeps the input's
/// dimensions, so the raw buffer keeps its length. (The pixel values depend
/// on the rotation angle, which the caller draws at random.)
#[verifier::external_body]
fn huerotate_rgba(w: u32, h: u32, buf: Vec<u8>, degrees: i32) -> (r: Vec<u8>)
    requires
        buf@.len() == w as nat * h as nat * 4,
    ensures
        r@.len() == buf@.len(),
{
    let img = image::ImageBuffer::<image::Rgba<u8>, Vec<u8>>::from_raw(w, h, buf).unwrap();
    let out = image::imageops::huerotate(&img, degrees);
    out.into_raw()
}

/// Relies on image::imageops::invert: each red, green and blue byte becomes
/// its complement `255 - b` in place; alpha bytes (every fourth) are left
/// untouched.
#[verifier::external_body]
fn invert_rgba(w: u32, h: u32, buf: Vec<u8>) -> (r: Vec<u8>)
    requires
        buf@.len() == w as nat * h as nat * 4,
    ensures
        r@.len() == buf@.len(),
        forall|i: int| 0 <= i < buf@.len() ==> r@[i] == (if i % 4 == 3 {
            buf@[i]
        } else {
            (255 - buf@[i]) as u8
        }),
{
    let mut img = image::ImageBuffer::<image::Rgba<u8>, Vec<u8>>::from_raw(w, h, buf).unwrap();
    image::imageops::invert(&mut img);
    img.into_raw()
}

/// Relies on ImageBuffer::write_to with ImageOutputFormat::Png: encoding a
/// non-empty in-memory RGBA image into a byte vector succeeds, and the output
/// is a function of the dimensions and pixel bytes alone.
#[verifier::external_body]
fn encode_rgba_png(w: u32, h: u32, buf: Vec<u8>) -> (r: Vec<u8>)
    requires
        w >= 1,
        h >= 1,
        buf@.len() == w as nat * h as nat * 4,
    ensures
        r@ == png_rgba_of(w as nat, h as nat, buf@),
{
    let img = image::ImageBuffer::<image::Rgba<u8>, Vec<u8>>::from_raw(w, h, buf).unwrap();
    let mut out: Vec<u8> = Vec::new();
    let mut writer = std::io::BufWriter::new(std::io::Cursor::new(&mut out));
    img.write_to(&mut writer, image::ImageOutputFormat::Png).unwrap();
    drop(writer);
    out
}

/// Whether pixel `(x, y)` lies on the marker frame: the outermost two pixel
/// rows and columns of the 256-square tile.
pub open spec fn on_marker_frame(x: int, y: int) -> bool {
    x < 2 || y < 2 || x > 253 || y > 253
}

/// Byte `i` of the framed image: magenta `(255, 0, 255, 255)` on the frame,
/// the original byte elsewhere.
pub open spec fn framed_byte(orig: Seq<u8>, i: int) -> u8 {
    let p = i / 4;
    let x = p % 256;
    let y = p / 256;
    if on_marker_frame(x, y) {
        if i % 4 == 1 {
            0u8
        } else {
            255u8
        }
    } else {
        orig[i]
    }
}

/// Whether a 256-square RGBA buffer carries the marker frame: magenta
/// `(255, 0, 255, 255)` on the outermost two pixel rows and columns.
pub open spec fn has_marker_frame(b: Seq<u8>) -> bool {
    forall|i: int|
        0 <= i < 262144 && on_marker_frame((i / 4) % 256, (i / 4) / 256) ==> (#[trigger] b[i]) == (
        if i % 4 == 1 {
            0u8
        } else {
            255u8
        })
}

/// Whether the marker leaves the bytes untouched even when enabled: the
/// decoder rejects them (the original stores malformed payloads verbatim),
/// or the decoded image has an empty axis, which the encoder cannot take
/// back.
pub open spec fn marker_passthrough(png: Seq<u8>) -> bool {
    match decoded_rgba_of(png) {
        None => true,
        Some(t) => t.0 == 0 || t.1 == 0,
    }
}

/// Everything `mark_fresh` promises of the bytes it hands back, whatever the
/// random hue angle was: with the marker off, or for bytes it must pass
/// through, the input itself; otherwise the PNG encoding of some RGBA buffer
/// with the input's decoded dimensions, carrying the marker frame at the
/// standard 256-square tile size. (The buffer's interior is the hue-rotated,
/// inverted image; the angle is random, so no more can be pinned.)
pub open spec fn marked_result_ok(body: Seq<u8>, highlight: bool, out: Seq<u8>) -> bool {
    if !highlight || marker_passthrough(body) {
        out == body
    } else {
        let t = decoded_rgba_of(body)->Some_0;
        exists|b: Seq<u8>|
            b.len() == t.0 as nat * t.1 as nat * 4 && (t.0 == 256 && t.1 == 256
                ==> has_marker_frame(b)) && out == #[trigger] png_rgba_of(
                t.0 as nat,
                t.1 as nat,
                b,
            )
    }
}

/// Paints the marker frame over a 256-square RGBA buffer.
fn draw_marker_frame(buf: Vec<u8>) -> (r: Vec<u8>)
    requires
        buf@.len() == 262144,
    ensures
        r@.len() == 262144,
        forall|i: int| 0 <= i < 262144 ==> r@[i] == framed_byte(buf@, i),
{
    let mut out = buf;
    let mut p: usize = 0;
    while p < 65536
        invariant
            out@.len() == 262144,
            0 <= p <= 65536,
            forall|i: int| 0 <= i < 4 * p ==> out@[i] == framed_byte(buf@, i),
            forall|i: int| 4 * p <= i < 262144 ==> out@[i] == buf@[i],
        decreases 65536 - p,
    {
        let x = p % 256;
        let y = p / 256;
        if x < 2 || y < 2 || x > 253 || y > 253 {
            out.set(4 * p, 255);
            out.set(4 * p + 1, 0);
            out.set(4 * p + 2, 255);
            out.set(4 * p + 3, 255);
        }
        proof {
            assert forall|i: int| 4 * p <= i < 4 * (p + 1) implies out@[i] == framed_byte(
                buf@,
                i,
            ) by {
                assert(i / 4 == p);
            }
        }
        p = p + 1;
    }
    out
}

/// Post-processes the body of a fresh download. With `highlight` off, the
/// bytes pass through and the tile stays cacheable. With it on, the tile is
/// re-encoded with the visual marker (random hue rotation, inversion, and on
/// tiles of the standard 256-square size a magenta frame) and flagged
/// non-cacheable; bytes the decoder rejects, or a degenerate image size, pass
/// through unmarked. `marked_result_ok` states exactly which of these the
/// returned bytes are.
pub fn mark_fresh(png_data: Vec<u8>, highlight: bool) -> (r: (Vec<u8>, bool))
    ensures
        r.1 == !highlight,
        marked_result_ok(png_data@, highlight, r.0@),
{
    if !highlight {
        return (png_data, true);
    }
    let angle_raw: i32 = rand::random::<i32>();
    let angle: i32 = angle_raw % 360;
    match decode_rgba(&png_data) {
        None => (png_data, false),
        Some((w, h, buf)) => {
            if w == 0 || h == 0 {
                return (png_data, false);
            }
            let buf = huerotate_rgba(w, h, buf, angle);
            let buf = invert_rgba(w, h, buf);
            if w == 256 && h == 256 {
                proof {
                    assert(w as nat * h as nat * 4 == 262144) by (nonlinear_arith)
                        requires
                            w == 256 && h == 256,
                    ;
                }
                let framed = draw_marker_frame(buf);
                let png = encode_rgba_png(w, h, framed);
                proof {
                    assert(has_marker_frame(framed@)) by {
                        assert forall|i: int|
                            0 <= i < 262144 && on_marker_frame((i / 4) % 256, (i / 4) / 256)
                            implies (framed@[i]) == (if i % 4 == 1 {
                            0u8
                        } else {
                            255u8
                        }) by {}
                    }
                    assert(exists|b: Seq<u8>|
                        b.len() == w as nat * h as nat * 4 && (w == 256 && h == 256
                            ==> has_marker_frame(b)) && png@ == #[trigger] png_rgba_of(
                            w as nat,
                            h as nat,
                            b,
                        ));
                }
                (png, false)
            } else {
                let png = encode_rgba_png(w, h, buf);
                proof {
                    assert(exists|b: Seq<u8>|
                        b.len() == w as nat * h as nat * 4 && (w == 256 && h == 256
                            ==> has_marker_frame(b)) && png@ == #[trigger] png_rgba_of(
                            w as nat,
                            h as nat,
                            b,
                        ));
                }
                (png, false)
            }
        },
    }
}

} // verus!
