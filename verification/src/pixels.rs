//! The pixel buffer: a grid of red, green and blue bytes addressed by `(x, y)`.

use crate::raw_image::image_dimensions;
use crate::raw_image::image_from_raw;
use crate::raw_image::image_get_pixel;
use crate::raw_image::image_into_raw;
use crate::raw_image::image_put_pixel;
use crate::raw_image::pixel_in;
use crate::raw_image::raw_bytes;
use crate::raw_image::raw_dimensions;
use crate::raw_image::RawImage;
use vstd::prelude::*;

verus! {

/// One pixel: its red, green and blue channel.
pub type Pixel = (u8, u8, u8);

/// The mathematical content of a pixel buffer: its extent and its pixels in
/// row-major order (`y` outer, `x` inner).
pub struct PixelGrid {
    pub width: nat,
    pub height: nat,
    pub pixels: Seq<Pixel>,
}

impl PixelGrid {
    /// A grid is well formed when neither side is empty and it holds one
    /// pixel per position.
    pub open spec fn wf(self) -> bool {
        &&& self.width > 0
        &&& self.height > 0
        &&& self.pixels.len() == self.width * self.height
    }

    /// Position of `(x, y)` in the row-major pixel sequence.
    pub open spec fn offset(self, x: int, y: int) -> int {
        y * self.width + x
    }

    /// The pixel at column `x` of row `y`.
    pub open spec fn pixel(self, x: int, y: int) -> Pixel {
        self.pixels[self.offset(x, y)]
    }
}

/// The grid that `width * height * 3` channel bytes describe.
pub open spec fn grid_of(width: nat, height: nat, bytes: Seq<u8>) -> PixelGrid {
    PixelGrid {
        width,
        height,
        pixels: Seq::new(width * height, |i: int| pixel_in(bytes, i)),
    }
}

/// Every position inside a `width` by `height` grid has an offset below
/// `width * height`.
pub proof fn lemma_offset_in_range(x: int, y: int, width: int, height: int)
    requires
        0 <= x < width,
        0 <= y < height,
    ensures
        0 <= y * width + x < width * height,
{
    assert(y * width + x < width * height) by (nonlinear_arith)
        requires
            0 <= x < width,
            0 <= y < height,
    ;
    assert(0 <= y * width) by (nonlinear_arith)
        requires
            0 <= y,
            0 <= width,
    ;
}

/// An RGB image in memory, mutable in place. Both sides are at least one
/// pixel long.
pub struct PixelBuffer {
    raw: RawImage,
}

impl View for PixelBuffer {
    type V = PixelGrid;

    closed spec fn view(&self) -> PixelGrid {
        let (width, height) = raw_dimensions(self.raw);
        grid_of(width as nat, height as nat, raw_bytes(self.raw))
    }
}

impl PixelBuffer {
    #[verifier::type_invariant]
    spec fn inv(&self) -> bool {
        let (width, height) = raw_dimensions(self.raw);
        &&& width > 0
        &&& height > 0
        &&& raw_bytes(self.raw).len() == 3 * (width * height)
    }

    /// Builds a buffer from its dimensions and its channel bytes in row-major
    /// order. Fails when a side is zero or the number of bytes is not three
    /// per pixel.
    pub fn from_raw(width: u32, height: u32, data: Vec<u8>) -> (made: Option<PixelBuffer>)
        ensures
            made is Some <==> width > 0 && height > 0 && data@.len() == 3 * (width * height),
            made matches Some(buf) ==> buf@ == grid_of(width as nat, height as nat, data@),
    {
        if width == 0 || height == 0 {
            return None;
        }
        assert(width * height <= 0xffff_ffff * 0xffff_ffff) by (nonlinear_arith)
            requires
                width <= 0xffff_ffff,
                height <= 0xffff_ffff,
        ;
        let needed: u128 = 3 * ((width as u128) * (height as u128));
        if data.len() as u128 != needed {
            return None;
        }
        match image_from_raw(width, height, data) {
            Some(raw) => Some(PixelBuffer { raw }),
            None => None,
        }
    }

    /// Gives up the buffer for its channel bytes in row-major order.
    pub fn into_raw(self) -> (data: Vec<u8>)
        ensures
            data@.len() == 3 * (self@.width * self@.height),
            grid_of(self@.width, self@.height, data@) == self@,
    {
        proof {
            use_type_invariant(&self);
        }
        image_into_raw(self.raw)
    }

    /// Width and height in pixels.
    pub fn dimensions(&self) -> (dims: (u32, u32))
        ensures
            dims.0 == self@.width,
            dims.1 == self@.height,
            self@.wf(),
    {
        proof {
            use_type_invariant(self);
        }
        image_dimensions(&self.raw)
    }

    /// Width in pixels.
    pub fn width(&self) -> (width: u32)
        ensures
            width == self@.width,
            width > 0,
    {
        self.dimensions().0
    }

    /// Height in pixels.
    pub fn height(&self) -> (height: u32)
        ensures
            height == self@.height,
            height > 0,
    {
        self.dimensions().1
    }

    /// Reads the pixel at column `x` of row `y`.
    pub fn get_pixel(&self, x: u32, y: u32) -> (rgb: Pixel)
        requires
            x < self@.width,
            y < self@.height,
        ensures
            rgb == self@.pixel(x as int, y as int),
    {
        proof {
            use_type_invariant(self);
            lemma_offset_in_range(x as int, y as int, self@.width as int, self@.height as int);
        }
        image_get_pixel(&self.raw, x, y)
    }

    /// Overwrites the pixel at column `x` of row `y`.
    pub fn put_pixel(&mut self, x: u32, y: u32, rgb: Pixel)
        requires
            x < old(self)@.width,
            y < old(self)@.height,
        ensures
            final(self)@.width == old(self)@.width,
            final(self)@.height == old(self)@.height,
            final(self)@.pixels == old(self)@.pixels.update(
                old(self)@.offset(x as int, y as int),
                rgb,
            ),
    {
        proof {
            use_type_invariant(&*self);
            lemma_offset_in_range(x as int, y as int, self@.width as int, self@.height as int);
        }
        image_put_pixel(&mut self.raw, x, y, rgb);
    }
}

} // verus!
