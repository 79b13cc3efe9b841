//! Quantization of 24-bit colors to the 6x6x6 cube of the 256-color palette.

use vstd::prelude::*;

verus! {

/// The largest value a color channel can take.
pub const CHANNEL_MAX: usize = 255;

/// First palette index of the color cube; the indices below it are reserved.
pub const CUBE_BASE: u8 = 16;

/// Last palette index of the color cube.
pub const CUBE_LAST: u8 = 231;

/// The cube level, from 0 to 5, that a channel value falls on.
pub open spec fn channel_level(c: int) -> int {
    (c * 3) / 128
}

/// The palette index of the cube entry with the given levels.
pub open spec fn cube_index(red: int, green: int, blue: int) -> int {
    red * 36 + green * 6 + blue + 16
}

/// The palette index that approximates the color `(r, g, b)`.
pub open spec fn palette_index(r: int, g: int, b: int) -> int {
    cube_index(channel_level(r), channel_level(g), channel_level(b))
}

/// Computes the cube level of one channel.
fn level_of(c: usize) -> (level: u8)
    requires
        c <= CHANNEL_MAX,
    ensures
        level == channel_level(c as int),
        level <= 5,
{
    let tripled: usize = c * 3;
    assert(tripled >> 7 == tripled / 128) by (bit_vector);
    (tripled >> 7) as u8
}

/// Transforms a color given as `(red, green, blue)` into the index of the
/// nearest entry of the 256-color palette's color cube.
pub fn rgb_to_256(rgb: (usize, usize, usize)) -> (index: u8)
    requires
        rgb.0 <= CHANNEL_MAX,
        rgb.1 <= CHANNEL_MAX,
        rgb.2 <= CHANNEL_MAX,
    ensures
        index == palette_index(rgb.0 as int, rgb.1 as int, rgb.2 as int),
        CUBE_BASE <= index <= CUBE_LAST,
{
    let r = level_of(rgb.0);
    let g = level_of(rgb.1);
    let b = level_of(rgb.2);
    ((r * 36) + (g * 6) + b) + 16
}

/// The smallest channel value on cube level `level`.
pub open spec fn level_floor(level: int) -> int {
    (level * 128 + 2) / 3
}

/// The level of a channel value is the value times three, shifted right by
/// seven bits.
pub proof fn lemma_level_is_shift(c: u32)
    requires
        c <= CHANNEL_MAX,
    ensures
        channel_level(c as int) == ((c * 3) as u32) >> 7,
{
    let tripled: u32 = (c * 3) as u32;
    assert(tripled >> 7 == tripled / 128) by (bit_vector);
}

/// Channel values fall on the levels 0 to 5: the value 0 on level 0, the
/// value 255 on level 5, and a larger value never on a lower level.
pub proof fn lemma_channel_levels(c: int, d: int)
    requires
        0 <= c <= d <= CHANNEL_MAX,
    ensures
        channel_level(0) == 0,
        channel_level(CHANNEL_MAX as int) == 5,
        0 <= channel_level(c) <= channel_level(d) <= 5,
{
}

/// The palette index of every color lies in the color cube, from 16 to 231.
pub proof fn lemma_index_in_cube(r: int, g: int, b: int)
    requires
        0 <= r <= CHANNEL_MAX,
        0 <= g <= CHANNEL_MAX,
        0 <= b <= CHANNEL_MAX,
    ensures
        CUBE_BASE <= palette_index(r, g, b) <= CUBE_LAST,
{
}

/// Every index of the color cube is the palette index of some color: the
/// indices that colors are mapped to are exactly those from 16 to 231.
pub proof fn lemma_cube_is_covered(index: int)
    requires
        CUBE_BASE <= index <= CUBE_LAST,
    ensures
        exists|r: int, g: int, b: int|
            0 <= r <= CHANNEL_MAX && 0 <= g <= CHANNEL_MAX && 0 <= b <= CHANNEL_MAX
                && #[trigger] palette_index(r, g, b) == index,
{
    let cell = index - 16;
    let r = level_floor(cell / 36);
    let g = level_floor((cell % 36) / 6);
    let b = level_floor(cell % 6);
    assert(palette_index(r, g, b) == index);
}

} // verus!
