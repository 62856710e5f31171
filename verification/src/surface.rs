//! A raster surface: a grid of pixels with an opacity each, as a source
//! image is read and as a decoded bitmap is shown.

use vstd::prelude::*;
use crate::bitmap::lemma_row_major;

verus! {

/// The colour and the opacity of one pixel of a surface.
#[derive(Clone, Copy, Debug, PartialEq, Eq, Structural)]
pub struct Rgba {
    pub r: u8,
    pub g: u8,
    pub b: u8,
    /// 255 is fully opaque.
    pub a: u8,
}

/// A surface as a mathematical value.
pub struct SurfaceView {
    pub width: nat,
    pub height: nat,
    /// Four bytes per pixel: the pixel in column `x` of row `y` starts at
    /// `4 * (y * width + x)`.
    pub rgba: Seq<u8>,
}

impl SurfaceView {
    /// Both sides fit 32 bits, and every pixel has its four bytes.
    pub open spec fn wf(self) -> bool {
        &&& self.width <= u32::MAX
        &&& self.height <= u32::MAX
        &&& self.rgba.len() == 4 * (self.width * self.height)
    }

    /// The pixel in column `x` of row `y`.
    pub open spec fn pixel(self, x: int, y: int) -> Rgba
        recommends
            0 <= x < self.width,
            0 <= y < self.height,
    {
        let at = 4 * (y * self.width + x);
        Rgba { r: self.rgba[at], g: self.rgba[at + 1], b: self.rgba[at + 2], a: self.rgba[at + 3] }
    }
}

/// A surface: `width * height` pixels of four bytes each, red, green, blue
/// and opacity, none of them multiplied by another.
#[derive(Debug, PartialEq, Eq)]
pub struct Surface {
    width: u32,
    height: u32,
    rgba: Vec<u8>,
}

impl View for Surface {
    type V = SurfaceView;

    closed spec fn view(&self) -> SurfaceView {
        SurfaceView { width: self.width as nat, height: self.height as nat, rgba: self.rgba@ }
    }
}

impl Clone for Surface {
    fn clone(&self) -> (copy: Surface)
        ensures
            copy@ == self@,
    {
        proof {
            use_type_invariant(self);
        }
        let rgba = self.rgba.clone();
        assert(rgba@ =~= self.rgba@);
        Surface { width: self.width, height: self.height, rgba }
    }
}

impl Surface {
    #[verifier::type_invariant]
    spec fn inv(self) -> bool {
        self.rgba@.len() == 4 * (self.width * self.height)
    }

    /// A surface of the given size over the given bytes, if there are four
    /// bytes for each of the `width * height` pixels.
    pub fn new(width: u32, height: u32, rgba: Vec<u8>) -> (surface: Option<Surface>)
        ensures
            match surface {
                Some(s) => s@ == (SurfaceView {
                    width: width as nat,
                    height: height as nat,
                    rgba: rgba@,
                }) && s@.wf(),
                None => rgba@.len() != 4 * (width * height),
            },
    {
        assert(width * height <= 0xffff_ffff * 0xffff_ffff) by (nonlinear_arith)
            requires
                width <= 0xffff_ffff,
                height <= 0xffff_ffff,
        ;
        let needed: u128 = 4 * (width as u128 * height as u128);
        if rgba.len() as u128 == needed {
            Some(Surface { width, height, rgba })
        } else {
            None
        }
    }

    /// A surface of the given size over bytes that are known to be four for
    /// each pixel.
    pub(crate) fn from_parts(width: u32, height: u32, rgba: Vec<u8>) -> (surface: Surface)
        requires
            rgba@.len() == 4 * (width * height),
        ensures
            surface@ == (SurfaceView { width: width as nat, height: height as nat, rgba: rgba@ }),
            surface@.wf(),
    {
        Surface { width, height, rgba }
    }

    /// The number of pixels in a row.
    pub fn width(&self) -> (width: u32)
        ensures
            width == self@.width,
            self@.wf(),
    {
        proof {
            use_type_invariant(self);
        }
        self.width
    }

    /// The number of rows.
    pub fn height(&self) -> (height: u32)
        ensures
            height == self@.height,
            self@.wf(),
    {
        proof {
            use_type_invariant(self);
        }
        self.height
    }

    /// The bytes of the surface: four per pixel, row by row.
    pub fn rgba(&self) -> (rgba: &[u8])
        ensures
            rgba@ == self@.rgba,
            self@.wf(),
    {
        proof {
            use_type_invariant(self);
        }
        self.rgba.as_slice()
    }

    /// The pixel in column `x` of row `y`, if the surface has one there.
    pub fn pixel(&self, x: u32, y: u32) -> (pixel: Option<Rgba>)
        ensures
            pixel == if x < self@.width && y < self@.height {
                Some(self@.pixel(x as int, y as int))
            } else {
                None
            },
    {
        proof {
            use_type_invariant(self);
        }
        if x < self.width && y < self.height {
            let column: usize = x as usize;
            let row: usize = y as usize;
            let width: usize = self.width as usize;
            proof {
                lemma_row_major(column as int, row as int, width as int, self.height as int);
                assert(self.rgba@.len() == self.rgba.len());
            }
            let at: usize = 4 * (row * width + column);
            Some(
                Rgba {
                    r: self.rgba[at],
                    g: self.rgba[at + 1],
                    b: self.rgba[at + 2],
                    a: self.rgba[at + 3],
                },
            )
        } else {
            None
        }
    }
}

} // verus!
