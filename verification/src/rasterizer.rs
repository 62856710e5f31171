//! Between a bitmap and a surface: painting gives every pixel of a bitmap
//! full opacity, unpainting drops the opacity of every pixel of a surface.
//! Both keep each pixel in its column and row.

use vstd::prelude::*;
use crate::bitmap::{lemma_row_major, Bitmap, BitmapView, Rgb};
use crate::sam::Sam;
use crate::surface::{Rgba, Surface, SurfaceView};

verus! {

/// The opacity of a painted pixel: full.
pub const OPAQUE: u8 = 255;

/// The surface that shows a bitmap: byte `k` of it belongs to pixel `k / 4`,
/// and is that pixel's red, green or blue byte, or the full opacity.
pub open spec fn painted(bitmap: BitmapView) -> SurfaceView {
    SurfaceView {
        width: bitmap.width,
        height: bitmap.height,
        rgba: Seq::new(
            4 * (bitmap.width * bitmap.height),
            |k: int|
                if k % 4 == 3 {
                    OPAQUE
                } else {
                    bitmap.pixels[3 * (k / 4) + k % 4]
                },
        ),
    }
}

/// The bitmap of a surface: byte `k` of it belongs to pixel `k / 3`, and is
/// that pixel's red, green or blue byte.
pub open spec fn unpainted(surface: SurfaceView) -> BitmapView {
    BitmapView {
        width: surface.width,
        height: surface.height,
        pixels: Seq::new(
            3 * (surface.width * surface.height),
            |k: int| surface.rgba[4 * (k / 3) + k % 3],
        ),
    }
}

impl Sam {
    /// Paints a bitmap on a new surface of its size, every pixel in its
    /// place and fully opaque.
    pub fn paint(bitmap: &Bitmap) -> (surface: Surface)
        ensures
            surface@ == painted(bitmap@),
            surface@.wf(),
            forall|x: int, y: int|
                0 <= x < bitmap@.width && 0 <= y < bitmap@.height ==> #[trigger] surface@.pixel(
                    x,
                    y,
                ) == opaque(bitmap@.pixel(x, y)),
    {
        let source = bitmap.pixels();
        let count: usize = source.len() / 3;
        let mut rgba: Vec<u8> = Vec::new();
        let mut i: usize = 0;
        while i < count
            invariant
                i <= count,
                source@.len() == 3 * count <= usize::MAX,
                rgba@.len() == 4 * i,
                forall|k: int|
                    0 <= k < 4 * i ==> #[trigger] rgba@[k] == if k % 4 == 3 {
                        OPAQUE
                    } else {
                        source@[3 * (k / 4) + k % 4]
                    },
            decreases count - i,
        {
            rgba.push(source[3 * i]);
            rgba.push(source[3 * i + 1]);
            rgba.push(source[3 * i + 2]);
            rgba.push(OPAQUE);
            i += 1;
        }
        assert(rgba@ =~= painted(bitmap@).rgba);
        assert forall|x: int, y: int|
            0 <= x < bitmap@.width && 0 <= y < bitmap@.height implies #[trigger] painted(
            bitmap@,
        ).pixel(x, y) == opaque(bitmap@.pixel(x, y)) by {
            lemma_painted_pixel(bitmap@, x, y);
        }
        Surface::from_parts(bitmap.width(), bitmap.height(), rgba)
    }

    /// Reads the pixels of a surface off into a bitmap of its size, every
    /// pixel in its place and without its opacity.
    pub fn unpaint(surface: &Surface) -> (bitmap: Bitmap)
        ensures
            bitmap@ == unpainted(surface@),
            bitmap@.wf(),
            forall|x: int, y: int|
                0 <= x < surface@.width && 0 <= y < surface@.height ==> #[trigger] bitmap@.pixel(
                    x,
                    y,
                ) == colour_of(surface@.pixel(x, y)),
    {
        let source = surface.rgba();
        let count: usize = source.len() / 4;
        let mut pixels: Vec<u8> = Vec::new();
        let mut i: usize = 0;
        while i < count
            invariant
                i <= count,
                source@.len() == 4 * count <= usize::MAX,
                pixels@.len() == 3 * i,
                forall|k: int|
                    0 <= k < 3 * i ==> #[trigger] pixels@[k] == source@[4 * (k / 3) + k % 3],
            decreases count - i,
        {
            pixels.push(source[4 * i]);
            pixels.push(source[4 * i + 1]);
            pixels.push(source[4 * i + 2]);
            i += 1;
        }
        assert(pixels@ =~= unpainted(surface@).pixels);
        assert forall|x: int, y: int|
            0 <= x < surface@.width && 0 <= y < surface@.height implies #[trigger] unpainted(
            surface@,
        ).pixel(x, y) == colour_of(surface@.pixel(x, y)) by {
            lemma_unpainted_pixel(surface@, x, y);
        }
        Bitmap::from_parts(surface.width(), surface.height(), pixels)
    }
}

/// A colour with full opacity.
pub open spec fn opaque(colour: Rgb) -> Rgba {
    Rgba { r: colour.r, g: colour.g, b: colour.b, a: OPAQUE }
}

/// A colour without its opacity.
pub open spec fn colour_of(pixel: Rgba) -> Rgb {
    Rgb { r: pixel.r, g: pixel.g, b: pixel.b }
}

/// Painting puts the pixel of column `x` and row `y` of the bitmap in
/// column `x` and row `y` of the surface, fully opaque.
pub proof fn lemma_painted_pixel(bitmap: BitmapView, x: int, y: int)
    requires
        bitmap.wf(),
        0 <= x < bitmap.width,
        0 <= y < bitmap.height,
    ensures
        painted(bitmap).wf(),
        painted(bitmap).pixel(x, y) == opaque(bitmap.pixel(x, y)),
{
    lemma_row_major(x, y, bitmap.width as int, bitmap.height as int);
}

/// Painting takes the pixels of the stream one after another: pixel number
/// `i`, whose three bytes start at `3 * i`, lands in column `i % width` of
/// row `i / width`.
pub proof fn lemma_painted_in_stream_order(bitmap: BitmapView, i: int)
    requires
        bitmap.wf(),
        0 <= i < bitmap.width * bitmap.height,
    ensures
        0 <= i % (bitmap.width as int) < bitmap.width,
        0 <= i / (bitmap.width as int) < bitmap.height,
        painted(bitmap).pixel(i % (bitmap.width as int), i / (bitmap.width as int)) == (Rgba {
            r: bitmap.pixels[3 * i],
            g: bitmap.pixels[3 * i + 1],
            b: bitmap.pixels[3 * i + 2],
            a: OPAQUE,
        }),
{
    let width = bitmap.width as int;
    let height = bitmap.height as int;
    assert(width > 0) by (nonlinear_arith)
        requires
            0 <= i < width * height,
            width >= 0,
    ;
    let x = i % width;
    let y = i / width;
    vstd::arithmetic::div_mod::lemma_fundamental_div_mod(i, width);
    assert(0 <= y < height && y * width + x == i) by (nonlinear_arith)
        requires
            i == width * y + x,
            0 <= x < width,
            0 <= i < width * height,
    ;
    lemma_painted_pixel(bitmap, x, y);
}

/// Unpainting puts the colour of the pixel of column `x` and row `y` of the
/// surface in column `x` and row `y` of the bitmap.
pub proof fn lemma_unpainted_pixel(surface: SurfaceView, x: int, y: int)
    requires
        surface.wf(),
        0 <= x < surface.width,
        0 <= y < surface.height,
    ensures
        unpainted(surface).wf(),
        unpainted(surface).pixel(x, y) == colour_of(surface.pixel(x, y)),
{
    lemma_row_major(x, y, surface.width as int, surface.height as int);
}

/// Unpainting a painted bitmap gives the bitmap back.
pub proof fn lemma_unpaint_paint(bitmap: BitmapView)
    requires
        bitmap.wf(),
    ensures
        unpainted(painted(bitmap)) == bitmap,
{
    assert(unpainted(painted(bitmap)).pixels =~= bitmap.pixels);
}

/// Painting an unpainted surface gives the surface back but for the
/// opacity, which is then full everywhere: a surface that is opaque
/// everywhere comes back as it was.
pub proof fn lemma_paint_unpaint(surface: SurfaceView)
    requires
        surface.wf(),
    ensures
        painted(unpainted(surface)).width == surface.width,
        painted(unpainted(surface)).height == surface.height,
        painted(unpainted(surface)).rgba.len() == surface.rgba.len(),
        forall|k: int|
            0 <= k < surface.rgba.len() ==> #[trigger] painted(unpainted(surface)).rgba[k] == if k
                % 4 == 3 {
                OPAQUE
            } else {
                surface.rgba[k]
            },
        (forall|k: int| 0 <= k < surface.rgba.len() && k % 4 == 3 ==> surface.rgba[k] == OPAQUE)
            ==> painted(unpainted(surface)) == surface,
{
    let back = painted(unpainted(surface));
    if forall|k: int| 0 <= k < surface.rgba.len() && k % 4 == 3 ==> surface.rgba[k] == OPAQUE {
        assert(back.rgba =~= surface.rgba);
    }
}

} // verus!
