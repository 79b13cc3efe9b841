//! Masking: every pixel is combined by exclusive or with one triple of the
//! mask stream, in row-major order. Masking twice with the same password
//! gives the image back.

use crate::generator::upcoming_triple;
use crate::keystream::advanced;
use crate::keystream::next_triple;
use crate::keystream::password_triple;
use crate::keystream::seed_rng_with_string;
use crate::pixels::lemma_offset_in_range;
use crate::pixels::Pixel;
use crate::pixels::PixelBuffer;
use crate::pixels::PixelGrid;
use rand_chacha::ChaCha8Rng;
use vstd::prelude::*;

verus! {

/// A pixel combined with a mask triple, channel by channel.
pub open spec fn xor_pixel(p: Pixel, m: (u8, u8, u8)) -> Pixel {
    (p.0 ^ m.0, p.1 ^ m.1, p.2 ^ m.2)
}

/// The grid masked with what the generator `rng` is about to yield: pixel
/// `i` in row-major order takes the generator's `i`-th next triple.
pub open spec fn masked_with(g: PixelGrid, rng: ChaCha8Rng) -> PixelGrid {
    PixelGrid {
        width: g.width,
        height: g.height,
        pixels: Seq::new(
            g.pixels.len(),
            |i: int| xor_pixel(g.pixels[i], upcoming_triple(rng, i as nat)),
        ),
    }
}

/// The grid masked with the stream of `password`.
pub open spec fn masked(g: PixelGrid, password: Seq<char>) -> PixelGrid {
    PixelGrid {
        width: g.width,
        height: g.height,
        pixels: Seq::new(
            g.pixels.len(),
            |i: int| xor_pixel(g.pixels[i], password_triple(password, i as nat)),
        ),
    }
}

/// Combines one pixel with one mask triple: each channel with the byte of
/// the triple that stands at its place.
pub fn mask_pixel(p: Pixel, m: (u8, u8, u8)) -> (q: Pixel)
    ensures
        q == xor_pixel(p, m),
{
    (p.0 ^ m.0, p.1 ^ m.1, p.2 ^ m.2)
}

/// Masks the buffer in place with the triples that `rng` yields, one per
/// pixel, row after row from the top and left to right within a row.
pub fn apply_mask(buf: &mut PixelBuffer, rng: &mut ChaCha8Rng)
    ensures
        final(buf)@ == masked_with(old(buf)@, *old(rng)),
        advanced(*old(rng), *final(rng), old(buf)@.pixels.len()),
{
    let ghost grid = buf@;
    let ghost start = *rng;
    let (width, height) = buf.dimensions();
    let mut y: u32 = 0;
    while y < height
        invariant
            grid.wf(),
            width == grid.width,
            height == grid.height,
            y <= height,
            buf@.width == grid.width,
            buf@.height == grid.height,
            buf@.pixels.len() == grid.pixels.len(),
            forall|i: int|
                0 <= i < y * width ==> #[trigger] buf@.pixels[i] == xor_pixel(
                    grid.pixels[i],
                    upcoming_triple(start, i as nat),
                ),
            forall|i: int|
                y * width <= i < grid.pixels.len() ==> #[trigger] buf@.pixels[i] == grid.pixels[i],
            advanced(start, *rng, (y * width) as nat),
        decreases height - y,
    {
        let mut x: u32 = 0;
        while x < width
            invariant
                grid.wf(),
                width == grid.width,
                height == grid.height,
                y < height,
                x <= width,
                buf@.width == grid.width,
                buf@.height == grid.height,
                buf@.pixels.len() == grid.pixels.len(),
                forall|i: int|
                    0 <= i < y * width + x ==> #[trigger] buf@.pixels[i] == xor_pixel(
                        grid.pixels[i],
                        upcoming_triple(start, i as nat),
                    ),
                forall|i: int|
                    y * width + x <= i < grid.pixels.len() ==> #[trigger] buf@.pixels[i]
                        == grid.pixels[i],
                advanced(start, *rng, (y * width + x) as nat),
            decreases width - x,
        {
            let triple = next_triple(rng);
            proof {
                lemma_offset_in_range(x as int, y as int, width as int, height as int);
            }
            let pixel = buf.get_pixel(x, y);
            buf.put_pixel(x, y, mask_pixel(pixel, triple));
            x = x + 1;
        }
        proof {
            assert((y + 1) * width == y * width + width) by (nonlinear_arith);
        }
        y = y + 1;
    }
    assert(height * width == grid.pixels.len()) by (nonlinear_arith)
        requires
            grid.pixels.len() == width * height,
    ;
    assert(buf@.pixels =~= masked_with(grid, start).pixels);
}

/// Masks the buffer in place with the mask stream of `password`. Doing so
/// a second time with the same password unmasks it.
pub fn mask_image(buf: &mut PixelBuffer, password: &str)
    ensures
        final(buf)@ == masked(old(buf)@, password@),
{
    let ghost grid = buf@;
    let mut rng = seed_rng_with_string(password);
    let ghost start = rng;
    apply_mask(buf, &mut rng);
    assert(masked_with(grid, start).pixels =~= masked(grid, password@).pixels);
}

/// Exclusive or with the same byte twice gives the byte back.
proof fn lemma_xor_twice(a: u8, b: u8)
    ensures
        (a ^ b) ^ b == a,
{
    assert((a ^ b) ^ b == a) by (bit_vector);
}

/// Masking a pixel twice with the same triple gives the pixel back.
pub proof fn lemma_xor_pixel_twice(p: Pixel, m: (u8, u8, u8))
    ensures
        xor_pixel(xor_pixel(p, m), m) == p,
{
    lemma_xor_twice(p.0, m.0);
    lemma_xor_twice(p.1, m.1);
    lemma_xor_twice(p.2, m.2);
}

/// Masking is its own inverse: for every grid and every password, masking
/// the masked grid with the same password gives the grid back.
pub proof fn lemma_mask_round_trip(g: PixelGrid, password: Seq<char>)
    ensures
        masked(masked(g, password), password) == g,
{
    let once = masked(g, password);
    let twice = masked(once, password);
    assert forall|i: int| 0 <= i < g.pixels.len() implies twice.pixels[i] == g.pixels[i] by {
        lemma_xor_pixel_twice(g.pixels[i], password_triple(password, i as nat));
    }
    assert(twice.pixels =~= g.pixels);
}

/// Masking changes neither the extent of a grid nor the number of its
/// pixels.
pub proof fn lemma_mask_keeps_shape(g: PixelGrid, password: Seq<char>)
    ensures
        masked(g, password).width == g.width,
        masked(g, password).height == g.height,
        masked(g, password).pixels.len() == g.pixels.len(),
        g.wf() ==> masked(g, password).wf(),
{
}

} // verus!
