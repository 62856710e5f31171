//! The decoded form of a container: a size and one red-green-blue triplet per
//! pixel, row by row from the top, each row from the left.

use vstd::prelude::*;

verus! {

/// The colour of one pixel of a bitmap.
#[derive(Clone, Copy, Debug, PartialEq, Eq, Structural)]
pub struct Rgb {
    pub r: u8,
    pub g: u8,
    pub b: u8,
}

/// A bitmap as a mathematical value.
pub struct BitmapView {
    pub width: nat,
    pub height: nat,
    /// Three bytes per pixel: the pixel in column `x` of row `y` starts at
    /// `3 * (y * width + x)`.
    pub pixels: Seq<u8>,
}

impl BitmapView {
    /// Both sides fit a header field, and every pixel has its three bytes.
    pub open spec fn wf(self) -> bool {
        &&& self.width <= u32::MAX
        &&& self.height <= u32::MAX
        &&& self.pixels.len() == 3 * (self.width * self.height)
    }

    /// The pixel in column `x` of row `y`.
    pub open spec fn pixel(self, x: int, y: int) -> Rgb
        recommends
            0 <= x < self.width,
            0 <= y < self.height,
    {
        let at = 3 * (y * self.width + x);
        Rgb { r: self.pixels[at], g: self.pixels[at + 1], b: self.pixels[at + 2] }
    }
}

/// Counting row by row, the pixel in column `x` of row `y` is number
/// `y * width + x` of the `width * height` pixels, and no other pixel has
/// that number.
pub proof fn lemma_row_major(x: int, y: int, width: int, height: int)
    by (nonlinear_arith)
    requires
        0 <= x < width,
        0 <= y < height,
    ensures
        0 <= y * width <= y * width + x < width * height,
        (y * width + x) % width == x,
        (y * width + x) / width == y,
{
    assert((y * width + x) / width == y && (y * width + x) % width == x) by {
        vstd::arithmetic::div_mod::lemma_fundamental_div_mod_converse(y * width + x, width, y, x);
    }
    assert(y * width + width <= height * width) by {
        assert((y + 1) * width <= height * width);
    }
}

/// A bitmap: `width * height` pixels of three bytes each.
#[derive(Debug, PartialEq, Eq)]
pub struct Bitmap {
    width: u32,
    height: u32,
    pixels: Vec<u8>,
}

impl View for Bitmap {
    type V = BitmapView;

    closed spec fn view(&self) -> BitmapView {
        BitmapView {
            width: self.width as nat,
            height: self.height as nat,
            pixels: self.pixels@,
        }
    }
}

impl Clone for Bitmap {
    fn clone(&self) -> (copy: Bitmap)
        ensures
            copy@ == self@,
    {
        proof {
            use_type_invariant(self);
        }
        let pixels = self.pixels.clone();
        assert(pixels@ =~= self.pixels@);
        Bitmap { width: self.width, height: self.height, pixels }
    }
}

impl Bitmap {
    #[verifier::type_invariant]
    spec fn inv(self) -> bool {
        self.pixels@.len() == 3 * (self.width * self.height)
    }

    /// A bitmap of the given size over the given pixel stream, if the stream
    /// has three bytes for each of the `width * height` pixels.
    pub fn new(width: u32, height: u32, pixels: Vec<u8>) -> (bitmap: Option<Bitmap>)
        ensures
            match bitmap {
                Some(b) => b@ == (BitmapView {
                    width: width as nat,
                    height: height as nat,
                    pixels: pixels@,
                }) && b@.wf(),
                None => pixels@.len() != 3 * (width * height),
            },
    {
        assert(width * height <= 0xffff_ffff * 0xffff_ffff) by (nonlinear_arith)
            requires
                width <= 0xffff_ffff,
                height <= 0xffff_ffff,
        ;
        let needed: u128 = 3 * (width as u128 * height as u128);
        if pixels.len() as u128 == needed {
            Some(Bitmap { width, height, pixels })
        } else {
            None
        }
    }

    /// A bitmap of the given size over a pixel stream that is known to have
    /// three bytes for each pixel.
    pub(crate) fn from_parts(width: u32, height: u32, pixels: Vec<u8>) -> (bitmap: Bitmap)
        requires
            pixels@.len() == 3 * (width * height),
        ensures
            bitmap@ == (BitmapView { width: width as nat, height: height as nat, pixels: pixels@ }),
            bitmap@.wf(),
    {
        Bitmap { width, height, pixels }
    }

    /// The number of pixels in a row.
    pub fn width(&self) -> (width: u32)
        ensures
            width == self@.width,
            self@.wf(),
    {
        proof {
            use_type_invariant(self);
        }
        self.width
    }

    /// The number of rows.
    pub fn height(&self) -> (height: u32)
        ensures
            height == self@.height,
            self@.wf(),
    {
        proof {
            use_type_invariant(self);
        }
        self.height
    }

    /// The pixel stream: three bytes per pixel, row by row.
    pub fn pixels(&self) -> (pixels: &[u8])
        ensures
            pixels@ == self@.pixels,
            self@.wf(),
    {
        proof {
            use_type_invariant(self);
        }
        self.pixels.as_slice()
    }

    /// The pixel in column `x` of row `y`, if the bitmap has one there.
    pub fn pixel(&self, x: u32, y: u32) -> (pixel: Option<Rgb>)
        ensures
            pixel == if x < self@.width && y < self@.height {
                Some(self@.pixel(x as int, y as int))
            } else {
                None
            },
    {
        proof {
            use_type_invariant(self);
        }
        if x < self.width && y < self.height {
            let column: usize = x as usize;
            let row: usize = y as usize;
            let width: usize = self.width as usize;
            proof {
                lemma_row_major(column as int, row as int, width as int, self.height as int);
                assert(self.pixels@.len() == self.pixels.len());
            }
            let at: usize = 3 * (row * width + column);
            Some(Rgb { r: self.pixels[at], g: self.pixels[at + 1], b: self.pixels[at + 2] })
        } else {
            None
        }
    }
}

} // verus!
