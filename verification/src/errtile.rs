//! The placeholder tile a failed fetch turns into: a 256-square magenta-black
//! checkerboard with a bright magenta border, onto which the failure message
//! is drawn as word-wrapped text. The pixel pattern is computed and verified
//! here byte by byte; the text rasterisation runs outside the library (glyph
//! rendering is floating-point work), over the verified base image and the
//! wrapped lines this module hands out.

use vstd::prelude::*;

verus! {

/// The column width the failure message is wrapped to.
pub const WRAP_WIDTH: u32 = 20;

/// The red/green/blue of checkerboard pixel `(x, y)`: bright magenta on the
/// four outermost rows and columns, then 16-pixel squares alternating between
/// dark magenta and black.
pub open spec fn error_pixel(x: int, y: int) -> (u8, u8, u8) {
    if x < 4 || y < 4 || x > 251 || y > 251 {
        (255u8, 0u8, 255u8)
    } else if (x / 16 + y / 16) % 2 == 0 {
        (127u8, 0u8, 127u8)
    } else {
        (0u8, 0u8, 0u8)
    }
}

/// The three RGB bytes of pixel `(x, y)`.
pub open spec fn pixel_bytes(x: int, y: int) -> Seq<u8> {
    let (r, g, b) = error_pixel(x, y);
    seq![r, g, b]
}

/// One image row: pixels `0 .. x` of row `y`, flattened.
pub open spec fn row_prefix(y: int, x: int) -> Seq<u8>
    decreases x,
{
    if x <= 0 {
        Seq::empty()
    } else {
        row_prefix(y, x - 1) + pixel_bytes(x - 1, y)
    }
}

/// The first `y` full rows of the image, flattened.
pub open spec fn rows_prefix(y: int) -> Seq<u8>
    decreases y,
{
    if y <= 0 {
        Seq::empty()
    } else {
        rows_prefix(y - 1) + row_prefix(y - 1, 256)
    }
}

/// The whole base image: 256 rows of 256 RGB pixels.
pub open spec fn error_tile_pixels_spec() -> Seq<u8> {
    rows_prefix(256)
}

/// Renders the base checkerboard-and-border image as a flat RGB buffer.
pub fn error_tile_pixels() -> (r: Vec<u8>)
    ensures
        r@ == error_tile_pixels_spec(),
        r@.len() == 196608,
{
    let mut out: Vec<u8> = Vec::new();
    let mut y: u32 = 0;
    while y < 256
        invariant
            0 <= y <= 256,
            out@ == rows_prefix(y as int),
            out@.len() == y * 768,
        decreases 256 - y,
    {
        let mut x: u32 = 0;
        while x < 256
            invariant
                0 <= y < 256,
                0 <= x <= 256,
                out@ == rows_prefix(y as int) + row_prefix(y as int, x as int),
                out@.len() == y * 768 + x * 3,
            decreases 256 - x,
        {
            if x < 4 || y < 4 || x > 251 || y > 251 {
                out.push(255);
                out.push(0);
                out.push(255);
            } else if (x / 16 + y / 16) % 2 == 0 {
                out.push(127);
                out.push(0);
                out.push(127);
            } else {
                out.push(0);
                out.push(0);
                out.push(0);
            }
            proof {
                assert(out@ =~= rows_prefix(y as int) + row_prefix(y as int, x as int + 1));
            }
            x = x + 1;
        }
        proof {
            assert(out@ =~= rows_prefix(y as int + 1));
        }
        y = y + 1;
    }
    proof {
        assert(out@ =~= error_tile_pixels_spec());
    }
    out
}

/// The message split into lines at most `width` columns wide, as the wrapping
/// library computes it; named so that contracts can speak of it.
pub uninterp spec fn wrapped_of(text: Seq<char>, width: int) -> Seq<Seq<char>>;

/// Relies on textwrap::wrap: the wrapping of a text at a column width is a
/// function of the two alone.
#[verifier::external_body]
fn wrap_str(text: &str, width: usize) -> (r: Vec<String>)
    ensures
        r.deep_view() == wrapped_of(text@, width as int),
{
    textwrap::wrap(text, width).into_iter().map(|line| line.into_owned()).collect()
}

/// Word-wraps a failure message to the error tile's column width.
pub fn wrap_message(text: &str) -> (r: Vec<String>)
    ensures
        r.deep_view() == wrapped_of(text@, WRAP_WIDTH as int),
{
    wrap_str(text, WRAP_WIDTH as usize)
}

/// The PNG encoding of the 256-square RGB image with the given pixel bytes;
/// named so that contracts can speak of it. Only the trusted encoder below
/// gives it meaning.
pub uninterp spec fn png_rgb_of(pixels: Seq<u8>) -> Seq<u8>;

/// Relies on ImageBuffer::write_to with ImageOutputFormat::Png: encoding a
/// 256-square in-memory RGB image into a byte vector succeeds, and the output
/// is a function of the pixel bytes alone.
#[verifier::external_body]
fn encode_rgb_png(pixels: Vec<u8>) -> (r: Vec<u8>)
    requires
        pixels@.len() == 196608,
    ensures
        r@ == png_rgb_of(pixels@),
{
    let img = image::ImageBuffer::<image::Rgb<u8>, Vec<u8>>::from_raw(256, 256, pixels).unwrap();
    let mut out: Vec<u8> = Vec::new();
    let mut writer = std::io::BufWriter::new(std::io::Cursor::new(&mut out));
    img.write_to(&mut writer, image::ImageOutputFormat::Png).unwrap();
    drop(writer);
    out
}

/// The base error tile, PNG-encoded: what a client is shown (behind the
/// message text) whenever a fetch fails.
pub fn error_tile_png() -> (r: Vec<u8>)
    ensures
        r@ == png_rgb_of(error_tile_pixels_spec()),
{
    encode_rgb_png(error_tile_pixels())
}

} // verus!
