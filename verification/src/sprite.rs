//! Sprites: decoded images as plain bytes, the frames that are cut out of a sheet, and the
//! boundary to the `image` crate, which decodes, resizes and encodes them.

use image::ImageEncoder;
use vstd::prelude::*;

verus! {

/// An image of red, green, blue and alpha bytes, row by row.
#[derive(Debug)]
pub struct Sprite {
    pub width: u32,
    pub height: u32,
    pub rgba: Vec<u8>,
}

/// The four bytes of a pixel.
#[derive(Clone, Copy, PartialEq, Eq, Debug, Structural)]
pub struct Pixel {
    pub r: u8,
    pub g: u8,
    pub b: u8,
    pub a: u8,
}

/// The pixel that nothing is drawn with.
pub open spec fn clear_pixel() -> Pixel {
    Pixel { r: 0, g: 0, b: 0, a: 0 }
}

/// The pixel at a position of bytes that are `width` pixels wide.
pub open spec fn pixel_at(rgba: Seq<u8>, width: int, x: int, y: int) -> Pixel {
    let i = (y * width + x) * 4;
    Pixel { r: rgba[i], g: rgba[i + 1], b: rgba[i + 2], a: rgba[i + 3] }
}

/// The bytes hold as many pixels as the image has.
pub open spec fn holds(rgba: Seq<u8>, width: int, height: int) -> bool {
    rgba.len() == width * height * 4
}

/// The bytes are those of pixels, row by row.
pub open spec fn shows(
    rgba: Seq<u8>,
    width: int,
    height: int,
    pixel: spec_fn(int, int) -> Pixel,
) -> bool {
    &&& holds(rgba, width, height)
    &&& forall|x: int, y: int|
        #![trigger pixel_at(rgba, width, x, y)]
        0 <= x < width && 0 <= y < height ==> pixel_at(rgba, width, x, y) == pixel(x, y)
}

impl Sprite {
    /// The sprite holds as many bytes as its size says.
    pub open spec fn wf(self) -> bool {
        holds(self.rgba@, self.width as int, self.height as int)
    }

    /// The pixel at a position.
    pub open spec fn at(self, x: int, y: int) -> Pixel {
        pixel_at(self.rgba@, self.width as int, x, y)
    }

    /// The pixel at a position.
    pub fn get_pixel(&self, x: u32, y: u32) -> (r: Pixel)
        requires
            self.wf(),
            x < self.width,
            y < self.height,
        ensures
            r == self.at(x as int, y as int),
    {
        proof {
            lemma_pixel_bound(self.width as int, self.height as int, x as int, y as int);
        }
        let total = self.rgba.len();
        let i: usize = ((y as usize) * (self.width as usize) + (x as usize)) * 4;
        Pixel { r: self.rgba[i], g: self.rgba[i + 1], b: self.rgba[i + 2], a: self.rgba[i + 3] }
    }
}

proof fn lemma_pixel_bound(width: int, height: int, x: int, y: int)
    requires
        0 <= x < width,
        0 <= y < height,
    ensures
        0 <= y * width,
        0 <= y * width + x,
        (y * width + x) * 4 + 4 <= width * height * 4,
{
    assert((y + 1) * width <= height * width) by (nonlinear_arith)
        requires
            0 <= y < height,
            0 < width,
    ;
    assert(0 <= y * width) by (nonlinear_arith)
        requires
            0 <= y,
            0 < width,
    ;
    assert((y + 1) * width == y * width + width) by (nonlinear_arith);
    assert(height * width == width * height) by (nonlinear_arith);
}

fn push_pixel(out: &mut Vec<u8>, p: Pixel)
    ensures
        final(out)@ == old(out)@ + seq![p.r, p.g, p.b, p.a],
{
    out.push(p.r);
    out.push(p.g);
    out.push(p.b);
    out.push(p.a);
    proof {
        assert(out@ =~= old(out)@ + seq![p.r, p.g, p.b, p.a]);
    }
}

/// The first pixels are drawn: all rows above `y`, and in row `y` those left of `x`.
spec fn drawn(
    rgba: Seq<u8>,
    width: int,
    x: int,
    y: int,
    pixel: spec_fn(int, int) -> Pixel,
) -> bool {
    &&& rgba.len() == (y * width + x) * 4
    &&& forall|px: int, py: int|
        #![trigger pixel_at(rgba, width, px, py)]
        0 <= px < width && 0 <= py && (py < y || (py == y && px < x)) ==> pixel_at(
            rgba,
            width,
            px,
            py,
        ) == pixel(px, py)
}

proof fn lemma_draw_next(
    before: Seq<u8>,
    width: int,
    x: int,
    y: int,
    pixel: spec_fn(int, int) -> Pixel,
)
    requires
        drawn(before, width, x, y, pixel),
        0 <= x < width,
        0 <= y,
    ensures
        ({
            let p = pixel(x, y);
            drawn(before + seq![p.r, p.g, p.b, p.a], width, x + 1, y, pixel)
        }),
{
    let p = pixel(x, y);
    let after = before + seq![p.r, p.g, p.b, p.a];
    assert(0 <= y * width) by (nonlinear_arith)
        requires
            0 <= y,
            0 < width,
    ;
    assert forall|px: int, py: int|
        0 <= px < width && 0 <= py && (py < y || (py == y && px < x + 1)) implies #[trigger] pixel_at(
        after,
        width,
        px,
        py,
    ) == pixel(px, py) by {
        if py == y && px == x {
            assert(after[(y * width + x) * 4] == p.r);
            assert(after[(y * width + x) * 4 + 1] == p.g);
            assert(after[(y * width + x) * 4 + 2] == p.b);
            assert(after[(y * width + x) * 4 + 3] == p.a);
        } else {
            assert(pixel_at(before, width, px, py) == pixel(px, py));
            if py < y {
                lemma_pixel_bound(width, y, px, py);
                assert(width * y == y * width) by (nonlinear_arith);
            }
            assert(0 <= py * width) by (nonlinear_arith)
                requires
                    0 <= py,
                    0 < width,
            ;
            assert((py * width + px) * 4 + 4 <= before.len());
        }
    }
}

proof fn lemma_draw_row(
    rgba: Seq<u8>,
    width: int,
    y: int,
    pixel: spec_fn(int, int) -> Pixel,
)
    requires
        drawn(rgba, width, width, y, pixel),
    ensures
        drawn(rgba, width, 0, y + 1, pixel),
{
    assert((y + 1) * width == y * width + width) by (nonlinear_arith);
}

// ---------------------------------------------------------------------------
// The image crate
// ---------------------------------------------------------------------------

/// Why an image could not be decoded or encoded.
#[verifier::external_type_specification]
#[verifier::external_body]
pub struct ExImageError(image::ImageError);

/// What `image::load_from_memory` makes of bytes, as `to_rgba8` gives it: the width, the height
/// and the bytes of the pixels. Nothing where it reports an error.
pub uninterp spec fn decoded_image(bytes: Seq<u8>) -> Option<(u32, u32, Seq<u8>)>;

/// Calls `image::load_from_memory` and `to_rgba8`, whose results depend on the bytes alone. A
/// buffer of that format holds four bytes for each pixel.
#[verifier::external_body]
fn load_image(bytes: &[u8]) -> (r: Result<Sprite, image::ImageError>)
    ensures
        match r {
            Ok(sprite) => decoded_image(bytes@) == Some(
                (sprite.width, sprite.height, sprite.rgba@),
            ) && sprite.wf(),
            Err(_) => decoded_image(bytes@) is None,
        },
{
    let buffer = image::load_from_memory(bytes)?.to_rgba8();
    Ok(Sprite { width: buffer.width(), height: buffer.height(), rgba: buffer.into_raw() })
}

/// What `image::codecs::png::PngEncoder` writes for the bytes of pixels; nothing where it
/// reports an error.
pub uninterp spec fn encoded_png(rgba: Seq<u8>, width: u32, height: u32) -> Option<Seq<u8>>;

/// Calls `write_image` of `image::codecs::png::PngEncoder`, whose output depends on the pixels
/// and the size alone. Bytes of another number would panic.
#[verifier::external_body]
fn write_png(rgba: &Vec<u8>, width: u32, height: u32) -> (r: Result<Vec<u8>, image::ImageError>)
    requires
        holds(rgba@, width as int, height as int),
    ensures
        match r {
            Ok(png) => encoded_png(rgba@, width, height) == Some(png@),
            Err(_) => encoded_png(rgba@, width, height) is None,
        },
{
    let mut png = Vec::new();
    let encoder = image::codecs::png::PngEncoder::new(&mut png);
    encoder.write_image(rgba, width, height, image::ExtendedColorType::Rgba8)?;
    Ok(png)
}

/// What `image::imageops::resize` with the nearest filter makes of the bytes of pixels. Of an
/// image without pixels it makes clear ones.
pub uninterp spec fn resized_nearest(
    rgba: Seq<u8>,
    width: u32,
    height: u32,
    new_width: u32,
    new_height: u32,
) -> Seq<u8>;

/// Calls `image::imageops::resize` with `FilterType::Nearest`, whose result depends on the
/// pixels and the sizes alone. Bytes that are enough for the size always make a buffer.
#[verifier::external_body]
fn resize_nearest(rgba: Vec<u8>, width: u32, height: u32, new_width: u32, new_height: u32) -> (r:
    Option<Vec<u8>>)
    requires
        holds(rgba@, width as int, height as int),
        0 < new_width && 0 < new_height,
    ensures
        r is Some,
        r->0@ == resized_nearest(rgba@, width, height, new_width, new_height),
{
    let buffer = image::RgbaImage::from_raw(width, height, rgba)?;
    let nearest = image::imageops::FilterType::Nearest;
    Some(image::imageops::resize(&buffer, new_width, new_height, nearest).into_raw())
}

/// Decodes an image; nothing where its bytes are none.
pub fn decode_sprite(bytes: &[u8]) -> (r: Option<Sprite>)
    ensures
        match r {
            Some(sprite) => decoded_image(bytes@) == Some(
                (sprite.width, sprite.height, sprite.rgba@),
            ) && sprite.wf(),
            None => decoded_image(bytes@) is None,
        },
{
    match load_image(bytes) {
        Ok(sprite) => Some(sprite),
        Err(_) => None,
    }
}

/// Encodes the bytes of pixels as PNG; nothing where that fails.
pub fn encode_png(rgba: &Vec<u8>, width: u32, height: u32) -> (r: Option<Vec<u8>>)
    requires
        holds(rgba@, width as int, height as int),
    ensures
        match r {
            Some(png) => encoded_png(rgba@, width, height) == Some(png@),
            None => encoded_png(rgba@, width, height) is None,
        },
{
    match write_png(rgba, width, height) {
        Ok(png) => Some(png),
        Err(_) => None,
    }
}

/// Resizes the bytes of pixels to another size.
pub fn enlarge(rgba: Vec<u8>, width: u32, height: u32, new_width: u32, new_height: u32) -> (r: Vec<
    u8,
>)
    requires
        holds(rgba@, width as int, height as int),
        0 < new_width && 0 < new_height,
    ensures
        r@ == resized_nearest(rgba@, width, height, new_width, new_height),
{
    match resize_nearest(rgba, width, height, new_width, new_height) {
        Some(bytes) => bytes,
        None => Vec::new(),
    }
}

// ---------------------------------------------------------------------------
// Frames of the cats
// ---------------------------------------------------------------------------

/// The size of a cell of the sheet in pixels.
pub const CELL_SIZE: u32 = 32;

/// The pixel of a cell is inside the sheet and something is drawn there.
pub open spec fn is_drawn(sheet: Sprite, row: int, col: int, lx: int, ly: int) -> bool {
    &&& 0 <= lx < CELL_SIZE
    &&& 0 <= ly < CELL_SIZE
    &&& col * CELL_SIZE + lx < sheet.width
    &&& row * CELL_SIZE + ly < sheet.height
    &&& sheet.at(col * CELL_SIZE + lx, row * CELL_SIZE + ly).a > 0
}

/// The part of a cell that something is drawn in.
#[derive(Clone, Copy, PartialEq, Eq, Debug, Structural)]
pub struct CellBounds {
    pub min_x: u32,
    pub min_y: u32,
    pub max_x: u32,
    pub max_y: u32,
}

/// Something is drawn in a column of a cell.
pub open spec fn column_drawn(sheet: Sprite, row: int, col: int, lx: int) -> bool {
    exists|ly: int| is_drawn(sheet, row, col, lx, ly)
}

/// Something is drawn in a line of a cell.
pub open spec fn line_drawn(sheet: Sprite, row: int, col: int, ly: int) -> bool {
    exists|lx: int| is_drawn(sheet, row, col, lx, ly)
}

/// The bounds are the least ones around all that is drawn in a cell.
pub open spec fn bounds_drawing(sheet: Sprite, row: int, col: int, b: CellBounds) -> bool {
    &&& forall|lx: int, ly: int|
        is_drawn(sheet, row, col, lx, ly) ==> b.min_x <= lx <= b.max_x && b.min_y <= ly <= b.max_y
    &&& column_drawn(sheet, row, col, b.min_x as int)
    &&& column_drawn(sheet, row, col, b.max_x as int)
    &&& line_drawn(sheet, row, col, b.min_y as int)
    &&& line_drawn(sheet, row, col, b.max_y as int)
}

/// Nothing is drawn in a cell.
pub open spec fn is_blank(sheet: Sprite, row: int, col: int) -> bool {
    forall|lx: int, ly: int| !is_drawn(sheet, row, col, lx, ly)
}

/// The pixels of a cell that come before a place, row by row.
spec fn comes_before(lx: int, ly: int, x: int, y: int) -> bool {
    ly < y || (ly == y && lx < x)
}

/// What is known of the bounds when the pixels before a place were looked at.
spec fn bounds_so_far(
    sheet: Sprite,
    row: int,
    col: int,
    b: Option<CellBounds>,
    x: int,
    y: int,
) -> bool {
    match b {
        Some(b) => {
            &&& forall|lx: int, ly: int|
                #![trigger is_drawn(sheet, row, col, lx, ly)]
                is_drawn(sheet, row, col, lx, ly) && comes_before(lx, ly, x, y) ==> b.min_x <= lx
                    <= b.max_x && b.min_y <= ly <= b.max_y
            &&& column_drawn(sheet, row, col, b.min_x as int)
            &&& column_drawn(sheet, row, col, b.max_x as int)
            &&& line_drawn(sheet, row, col, b.min_y as int)
            &&& line_drawn(sheet, row, col, b.max_y as int)
        },
        None => forall|lx: int, ly: int|
            #![trigger is_drawn(sheet, row, col, lx, ly)]
            comes_before(lx, ly, x, y) ==> !is_drawn(sheet, row, col, lx, ly),
    }
}

/// The bounds, widened to hold a place.
spec fn widen(b: Option<CellBounds>, x: u32, y: u32) -> CellBounds {
    match b {
        Some(b) => CellBounds {
            min_x: if x < b.min_x {
                x
            } else {
                b.min_x
            },
            min_y: if y < b.min_y {
                y
            } else {
                b.min_y
            },
            max_x: if x > b.max_x {
                x
            } else {
                b.max_x
            },
            max_y: if y > b.max_y {
                y
            } else {
                b.max_y
            },
        },
        None => CellBounds { min_x: x, min_y: y, max_x: x, max_y: y },
    }
}

fn widened(b: Option<CellBounds>, x: u32, y: u32) -> (r: CellBounds)
    ensures
        r == widen(b, x, y),
{
    match b {
        Some(b) => CellBounds {
            min_x: if x < b.min_x {
                x
            } else {
                b.min_x
            },
            min_y: if y < b.min_y {
                y
            } else {
                b.min_y
            },
            max_x: if x > b.max_x {
                x
            } else {
                b.max_x
            },
            max_y: if y > b.max_y {
                y
            } else {
                b.max_y
            },
        },
        None => CellBounds { min_x: x, min_y: y, max_x: x, max_y: y },
    }
}

proof fn lemma_bounds_step(
    sheet: Sprite,
    row: int,
    col: int,
    b: Option<CellBounds>,
    x: u32,
    y: u32,
)
    requires
        bounds_so_far(sheet, row, col, b, x as int, y as int),
    ensures
        is_drawn(sheet, row, col, x as int, y as int) ==> bounds_so_far(
            sheet,
            row,
            col,
            Some(widen(b, x, y)),
            x + 1,
            y as int,
        ),
        !is_drawn(sheet, row, col, x as int, y as int) ==> bounds_so_far(
            sheet,
            row,
            col,
            b,
            x + 1,
            y as int,
        ),
{
    if is_drawn(sheet, row, col, x as int, y as int) {
        let w = widen(b, x, y);
        assert forall|lx: int, ly: int|
            #![trigger is_drawn(sheet, row, col, lx, ly)]
            is_drawn(sheet, row, col, lx, ly) && comes_before(
                lx,
                ly,
                x + 1,
                y as int,
            ) implies w.min_x <= lx <= w.max_x && w.min_y <= ly <= w.max_y by {
            if !(lx == x && ly == y) {
                assert(comes_before(lx, ly, x as int, y as int));
            }
        }
        assert(column_drawn(sheet, row, col, x as int));
        assert(line_drawn(sheet, row, col, y as int));
        assert(bounds_so_far(sheet, row, col, Some(w), x + 1, y as int));
    } else {
        assert forall|lx: int, ly: int|
            #![trigger is_drawn(sheet, row, col, lx, ly)]
            is_drawn(sheet, row, col, lx, ly) && comes_before(
                lx,
                ly,
                x + 1,
                y as int,
            ) implies comes_before(lx, ly, x as int, y as int) by {}
    }
}

/// Finds the part of a cell that something is drawn in; nothing where the cell is blank.
pub fn find_bounds(sheet: &Sprite, row: u32, col: u32) -> (r: Option<CellBounds>)
    requires
        sheet.wf(),
        (row + 1) * CELL_SIZE <= u32::MAX,
        (col + 1) * CELL_SIZE <= u32::MAX,
    ensures
        match r {
            Some(b) => bounds_drawing(*sheet, row as int, col as int, b) && b.min_x <= b.max_x
                < CELL_SIZE && b.min_y <= b.max_y < CELL_SIZE,
            None => is_blank(*sheet, row as int, col as int),
        },
{
    let cell_x = col * CELL_SIZE;
    let cell_y = row * CELL_SIZE;
    let mut found: Option<CellBounds> = None;
    let mut ly: u32 = 0;
    while ly < CELL_SIZE
        invariant
            sheet.wf(),
            ly <= CELL_SIZE,
            cell_x == col * CELL_SIZE,
            cell_y == row * CELL_SIZE,
            (row + 1) * CELL_SIZE <= u32::MAX,
            (col + 1) * CELL_SIZE <= u32::MAX,
            bounds_so_far(*sheet, row as int, col as int, found, 0, ly as int),
        decreases CELL_SIZE - ly,
    {
        let mut lx: u32 = 0;
        while lx < CELL_SIZE
            invariant
                sheet.wf(),
                lx <= CELL_SIZE,
                ly < CELL_SIZE,
                cell_x == col * CELL_SIZE,
                cell_y == row * CELL_SIZE,
                (row + 1) * CELL_SIZE <= u32::MAX,
                (col + 1) * CELL_SIZE <= u32::MAX,
                bounds_so_far(*sheet, row as int, col as int, found, lx as int, ly as int),
            decreases CELL_SIZE - lx,
        {
            let gx = cell_x + lx;
            let gy = cell_y + ly;
            proof {
                lemma_bounds_step(*sheet, row as int, col as int, found, lx, ly);
            }
            if gx < sheet.width && gy < sheet.height && sheet.get_pixel(gx, gy).a > 0 {
                proof {
                    assert(is_drawn(*sheet, row as int, col as int, lx as int, ly as int));
                }
                found = Some(widened(found, lx, ly));
            }
            lx += 1;
        }
        proof {
            assert forall|px: int, py: int|
                #![trigger is_drawn(*sheet, row as int, col as int, px, py)]
                is_drawn(*sheet, row as int, col as int, px, py) && comes_before(
                    px,
                    py,
                    0,
                    ly + 1,
                ) implies comes_before(px, py, lx as int, ly as int) by {}
        }
        ly += 1;
    }
    proof {
        assert forall|px: int, py: int|
            #![trigger is_drawn(*sheet, row as int, col as int, px, py)]
            is_drawn(*sheet, row as int, col as int, px, py) implies comes_before(
            px,
            py,
            0,
            ly as int,
        ) by {}
    }
    found
}

/// A frame cut out of a sheet.
#[derive(Debug)]
pub struct CroppedFrame {
    pub width: u32,
    pub height: u32,
    pub rgba: Vec<u8>,
    /// The number of blank rows below the frame in its cell.
    pub rows_below: u32,
}

/// The frame is what stands in a cell inside the given bounds of its drawing.
pub open spec fn is_cut_at(
    frame: CroppedFrame,
    sheet: Sprite,
    row: int,
    col: int,
    b: CellBounds,
) -> bool {
    &&& bounds_drawing(sheet, row, col, b)
    &&& frame.width == b.max_x - b.min_x + 1
    &&& frame.height == b.max_y - b.min_y + 1
    &&& frame.rows_below == CELL_SIZE - b.max_y - 1
    &&& shows(
        frame.rgba@,
        frame.width as int,
        frame.height as int,
        |x: int, y: int| sheet.at(col * CELL_SIZE + b.min_x + x, row * CELL_SIZE + b.min_y + y),
    )
}

/// The frame is what is drawn in a cell, cut as small as it can be.
pub open spec fn is_frame_of(frame: CroppedFrame, sheet: Sprite, row: int, col: int) -> bool {
    exists|b: CellBounds|
        #![trigger bounds_drawing(sheet, row, col, b)]
        is_cut_at(frame, sheet, row, col, b)
}

/// Cuts the frame in a cell out of the sheet, as small as it can be; nothing where the cell is
/// blank.
pub fn crop_frame(sheet: &Sprite, row: u32, col: u32) -> (r: Option<CroppedFrame>)
    requires
        sheet.wf(),
        (row + 1) * CELL_SIZE <= u32::MAX,
        (col + 1) * CELL_SIZE <= u32::MAX,
    ensures
        match r {
            Some(frame) => is_frame_of(frame, *sheet, row as int, col as int),
            None => is_blank(*sheet, row as int, col as int),
        },
{
    match find_bounds(sheet, row, col) {
        Some(b) => {
            let x0 = col * CELL_SIZE + b.min_x;
            let y0 = row * CELL_SIZE + b.min_y;
            let width = b.max_x - b.min_x + 1;
            let height = b.max_y - b.min_y + 1;
            proof {
                assert(column_drawn(*sheet, row as int, col as int, b.max_x as int));
                assert(line_drawn(*sheet, row as int, col as int, b.max_y as int));
            }
            let rgba = cut_out(sheet, x0, y0, width, height);
            proof {
                assert(bounds_drawing(*sheet, row as int, col as int, b));
                let wanted = |x: int, y: int|
                    sheet.at(col * CELL_SIZE + b.min_x + x, row * CELL_SIZE + b.min_y + y);
                assert(shows(rgba@, width as int, height as int, wanted));
            }
            Some(CroppedFrame { width, height, rgba, rows_below: CELL_SIZE - b.max_y - 1 })
        },
        None => None,
    }
}

/// Cuts a rectangle out of a sprite.
pub fn cut_out(sheet: &Sprite, x0: u32, y0: u32, width: u32, height: u32) -> (r: Vec<u8>)
    requires
        sheet.wf(),
        x0 + width <= sheet.width,
        y0 + height <= sheet.height,
    ensures
        shows(r@, width as int, height as int, |x: int, y: int| sheet.at(x0 + x, y0 + y)),
{
    let ghost pixel = |x: int, y: int| sheet.at(x0 + x, y0 + y);
    let mut out: Vec<u8> = Vec::new();
    let mut y: u32 = 0;
    proof {
        assert(0 * (width as int) == 0) by (nonlinear_arith);
    }
    while y < height
        invariant
            sheet.wf(),
            x0 + width <= sheet.width,
            y0 + height <= sheet.height,
            y <= height,
            pixel == (|x: int, y: int| sheet.at(x0 + x, y0 + y)),
            drawn(out@, width as int, 0, y as int, pixel),
        decreases height - y,
    {
        let mut x: u32 = 0;
        while x < width
            invariant
                sheet.wf(),
                x0 + width <= sheet.width,
                y0 + height <= sheet.height,
                x <= width,
                y < height,
                pixel == (|x: int, y: int| sheet.at(x0 + x, y0 + y)),
                drawn(out@, width as int, x as int, y as int, pixel),
            decreases width - x,
        {
            let p = sheet.get_pixel(x0 + x, y0 + y);
            proof {
                assert(p == pixel(x as int, y as int));
                lemma_draw_next(out@, width as int, x as int, y as int, pixel);
            }
            push_pixel(&mut out, p);
            x += 1;
        }
        proof {
            lemma_draw_row(out@, width as int, y as int, pixel);
        }
        y += 1;
    }
    proof {
        assert((height as int) * (width as int) == (width as int) * (height as int))
            by (nonlinear_arith);
    }
    out
}

// ---------------------------------------------------------------------------
// Laws
// ---------------------------------------------------------------------------

/// A pixel takes four bytes, red first and alpha last, and the rows follow each other.
pub proof fn law_pixel_bytes(rgba: Seq<u8>, width: int, x: int, y: int)
    ensures
        ({
            let p = pixel_at(rgba, width, x, y);
            let at = 4 * (width * y + x);
            p.r == rgba[at] && p.g == rgba[at + 1] && p.b == rgba[at + 2] && p.a == rgba[at + 3]
        }),
        clear_pixel().a == 0,
        clear_pixel().r == 0 && clear_pixel().g == 0 && clear_pixel().b == 0,
{
    assert(4 * (width * y + x) == (y * width + x) * 4) by (nonlinear_arith);
}

/// Something is drawn at a pixel of a cell exactly if that pixel of the sheet is there and is not
/// wholly transparent. A cell is 32 pixels wide and high.
pub proof fn law_drawn_is_not_transparent(sheet: Sprite, row: int, col: int, lx: int, ly: int)
    requires
        0 <= lx < 32,
        0 <= ly < 32,
    ensures
        is_drawn(sheet, row, col, lx, ly) <==> 32 * col + lx < sheet.width && 32 * row + ly
            < sheet.height && sheet.at(32 * col + lx, 32 * row + ly).a != 0,
        !is_drawn(sheet, row, col, lx + 32, ly),
        !is_drawn(sheet, row, col, lx, ly + 32),
{
}

/// The bounds of a drawing are the only ones, they lie inside every box that holds the drawing, and
/// there are none where nothing is drawn.
pub proof fn law_bounds_are_the_least(
    sheet: Sprite,
    row: int,
    col: int,
    b: CellBounds,
    other: CellBounds,
)
    requires
        bounds_drawing(sheet, row, col, b),
        forall|lx: int, ly: int|
            is_drawn(sheet, row, col, lx, ly) ==> other.min_x <= lx <= other.max_x && other.min_y <= ly
                <= other.max_y,
    ensures
        other.min_x <= b.min_x <= b.max_x <= other.max_x,
        other.min_y <= b.min_y <= b.max_y <= other.max_y,
        bounds_drawing(sheet, row, col, other) ==> other == b,
        !is_blank(sheet, row, col),
{
    let left = choose|ly: int| is_drawn(sheet, row, col, b.min_x as int, ly);
    let right = choose|ly: int| is_drawn(sheet, row, col, b.max_x as int, ly);
    let top = choose|lx: int| is_drawn(sheet, row, col, lx, b.min_y as int);
    let bottom = choose|lx: int| is_drawn(sheet, row, col, lx, b.max_y as int);
    assert(is_drawn(sheet, row, col, b.min_x as int, left));
    assert(is_drawn(sheet, row, col, b.max_x as int, right));
    assert(is_drawn(sheet, row, col, top, b.min_y as int));
    assert(is_drawn(sheet, row, col, bottom, b.max_y as int));
    if bounds_drawing(sheet, row, col, other) {
        let left = choose|ly: int| is_drawn(sheet, row, col, other.min_x as int, ly);
        let right = choose|ly: int| is_drawn(sheet, row, col, other.max_x as int, ly);
        let top = choose|lx: int| is_drawn(sheet, row, col, lx, other.min_y as int);
        let bottom = choose|lx: int| is_drawn(sheet, row, col, lx, other.max_y as int);
        assert(is_drawn(sheet, row, col, other.min_x as int, left));
        assert(is_drawn(sheet, row, col, other.max_x as int, right));
        assert(is_drawn(sheet, row, col, top, other.min_y as int));
        assert(is_drawn(sheet, row, col, bottom, other.max_y as int));
    }
}

/// A frame holds all that is drawn in its cell and reaches as far as that: something is drawn in its
/// lowest row, which stands above the blank rows that are counted, and nothing is drawn in those.
pub proof fn law_frame_stands_above_blank_rows(
    frame: CroppedFrame,
    sheet: Sprite,
    row: int,
    col: int,
    lx: int,
    ly: int,
)
    requires
        is_frame_of(frame, sheet, row, col),
    ensures
        line_drawn(sheet, row, col, 31 - frame.rows_below),
        line_drawn(sheet, row, col, 32 - frame.rows_below - frame.height),
        is_drawn(sheet, row, col, lx, ly) ==> 32 - frame.rows_below - frame.height <= ly < 32
            - frame.rows_below,
        frame.rgba@.len() == frame.width * frame.height * 4,
        exists|left: int|
            #![trigger column_drawn(sheet, row, col, left)]
            column_drawn(sheet, row, col, left) && column_drawn(
                sheet,
                row,
                col,
                left + frame.width - 1,
            ) && (is_drawn(sheet, row, col, lx, ly) ==> left <= lx < left + frame.width
                && pixel_at(
                frame.rgba@,
                frame.width as int,
                lx - left,
                ly - (32 - frame.rows_below - frame.height),
            ) == sheet.at(32 * col + lx, 32 * row + ly)),
{
    let b = choose|b: CellBounds|
        #![trigger bounds_drawing(sheet, row, col, b)]
        is_cut_at(frame, sheet, row, col, b);
    assert(bounds_drawing(sheet, row, col, b));
    assert(column_drawn(sheet, row, col, b.min_x as int));
    assert(column_drawn(sheet, row, col, b.max_x as int));
    let top = choose|x: int| is_drawn(sheet, row, col, x, b.min_y as int);
    let bottom = choose|x: int| is_drawn(sheet, row, col, x, b.max_y as int);
    assert(is_drawn(sheet, row, col, top, b.min_y as int));
    assert(is_drawn(sheet, row, col, bottom, b.max_y as int));
    if is_drawn(sheet, row, col, lx, ly) {
        let p = pixel_at(frame.rgba@, frame.width as int, lx - b.min_x, ly - b.min_y);
        assert(p == sheet.at(
            col * CELL_SIZE + b.min_x + (lx - b.min_x),
            row * CELL_SIZE + b.min_y + (ly - b.min_y),
        ));
    }
}

} // verus!
