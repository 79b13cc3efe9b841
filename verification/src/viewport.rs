//! Fitting an image into a grid of character cells without distorting it.
//!
//! The image is first squeezed to the available height, then the result is
//! squeezed to the available width. Each squeeze scales the other side in
//! proportion and rounds it down.

use vstd::prelude::*;

verus! {

/// The size after the first step: an image taller than `avail_h` is scaled
/// down to that height.
pub open spec fn squeeze_height(img_w: int, img_h: int, avail_h: int) -> (int, int) {
    if img_h > avail_h {
        (img_w * avail_h / img_h, avail_h)
    } else {
        (img_w, img_h)
    }
}

/// The size after the second step: an image wider than `avail_w` is scaled
/// down to that width.
pub open spec fn squeeze_width(img_w: int, img_h: int, avail_w: int) -> (int, int) {
    if img_w > avail_w {
        (avail_w, img_h * avail_w / img_w)
    } else {
        (img_w, img_h)
    }
}

/// The largest size of the image's proportions that fits into `avail_w` by
/// `avail_h`: height is squeezed first, then width.
pub open spec fn viewport(img_w: int, img_h: int, avail_w: int, avail_h: int) -> (int, int) {
    let (w, h) = squeeze_height(img_w, img_h, avail_h);
    squeeze_width(w, h, avail_w)
}

/// Whether the proportions of the image are moderate enough for both sides
/// to survive the fitting. A very flat or very thin image loses a side: it
/// is rounded down to nothing.
pub open spec fn keeps_both_sides(img_w: int, img_h: int, avail_w: int, avail_h: int) -> bool {
    if img_h > avail_h {
        let w = img_w * avail_h / img_h;
        img_w * avail_h >= img_h && (w > avail_w ==> avail_h * avail_w >= w)
    } else {
        img_w > avail_w ==> img_h * avail_w >= img_w
    }
}

/// `a * b / c` for `c > 0`, computed without overflow.
fn scale(a: u64, b: u64, c: u64) -> (q: u64)
    requires
        c > 0,
        b <= c,
    ensures
        q == a * b / (c as int),
        q <= a,
{
    assert(a * b <= 0xffff_ffff_ffff_ffff * 0xffff_ffff_ffff_ffff) by (nonlinear_arith)
        requires
            a <= 0xffff_ffff_ffff_ffff,
            b <= 0xffff_ffff_ffff_ffff,
    ;
    let product: u128 = (a as u128) * (b as u128);
    let q: u128 = product / (c as u128);
    proof {
        assert(a * b <= a * c) by (nonlinear_arith)
            requires
                b <= c,
                0 <= a,
        ;
        assert((a * b) / (c as int) <= a) by (nonlinear_arith)
            requires
                a * b <= a * c,
                c > 0,
                0 <= a,
        ;
    }
    q as u64
}

/// Fits an image of `img_w` by `img_h` into `avail_w` by `avail_h`.
pub fn fit(img_w: u64, img_h: u64, avail_w: u64, avail_h: u64) -> (size: (u64, u64))
    ensures
        size.0 == viewport(img_w as int, img_h as int, avail_w as int, avail_h as int).0,
        size.1 == viewport(img_w as int, img_h as int, avail_w as int, avail_h as int).1,
        size.0 <= avail_w,
        size.1 <= avail_h,
{
    let (w, h) = if img_h > avail_h {
        (scale(img_w, avail_h, img_h), avail_h)
    } else {
        (img_w, img_h)
    };
    if w > avail_w {
        (avail_w, scale(h, avail_w, w))
    } else {
        (w, h)
    }
}

/// Given the size of an image and of the terminal, as `(width, height)`
/// each, figures out how big to draw the image.
pub fn get_img_viewport(img: (u32, u32), term: (u32, u32)) -> (size: (u32, u32))
    ensures
        size.0 == viewport(img.0 as int, img.1 as int, term.0 as int, term.1 as int).0,
        size.1 == viewport(img.0 as int, img.1 as int, term.0 as int, term.1 as int).1,
{
    let (w, h) = fit(img.0 as u64, img.1 as u64, term.0 as u64, term.1 as u64);
    (w as u32, h as u32)
}

/// The fitted size never exceeds what is available, whatever the image. For
/// an image and an available area with no empty side, both fitted sides
/// are at least 1 exactly when the image keeps both sides.
pub proof fn lemma_viewport_bounds(img_w: int, img_h: int, avail_w: int, avail_h: int)
    requires
        0 <= img_w,
        0 <= img_h,
        0 <= avail_w,
        0 <= avail_h,
    ensures
        0 <= viewport(img_w, img_h, avail_w, avail_h).0 <= avail_w,
        0 <= viewport(img_w, img_h, avail_w, avail_h).1 <= avail_h,
        1 <= img_w && 1 <= img_h && 1 <= avail_w && 1 <= avail_h ==> (keeps_both_sides(
            img_w,
            img_h,
            avail_w,
            avail_h,
        ) <==> 1 <= viewport(img_w, img_h, avail_w, avail_h).0 && 1 <= viewport(
            img_w,
            img_h,
            avail_w,
            avail_h,
        ).1),
{
    let (w, h) = squeeze_height(img_w, img_h, avail_h);
    if img_h > avail_h {
        lemma_scaled_down(img_w, avail_h, img_h);
    }
    if w > avail_w {
        lemma_scaled_down(h, avail_w, w);
    }
}

/// Scaling `a` by `b / c` with `0 <= b <= c` gives a value between 0 and
/// `a`, which is at least 1 exactly when `a * b` reaches `c`.
proof fn lemma_scaled_down(a: int, b: int, c: int)
    requires
        0 <= a,
        0 <= b <= c,
        0 < c,
    ensures
        0 <= a * b / c <= a,
        1 <= a * b / c <==> a * b >= c,
{
    assert(0 <= a * b <= a * c) by (nonlinear_arith)
        requires
            0 <= a,
            0 <= b <= c,
    ;
    let p = a * b;
    let ac = a * c;
    assert(0 <= p / c <= a && (1 <= p / c <==> p >= c)) by (nonlinear_arith)
        requires
            0 <= p <= ac,
            ac == a * c,
            0 < c,
            0 <= a,
    ;
}

/// An image that keeps both sides is fitted to a size between 1 and what is
/// available on each side.
pub proof fn lemma_viewport_within_area(img_w: int, img_h: int, avail_w: int, avail_h: int)
    requires
        1 <= img_w,
        1 <= img_h,
        1 <= avail_w,
        1 <= avail_h,
        keeps_both_sides(img_w, img_h, avail_w, avail_h),
    ensures
        1 <= viewport(img_w, img_h, avail_w, avail_h).0 <= avail_w,
        1 <= viewport(img_w, img_h, avail_w, avail_h).1 <= avail_h,
{
    lemma_viewport_bounds(img_w, img_h, avail_w, avail_h);
}

/// An image that already fits is left as it is.
pub proof fn lemma_viewport_of_fitting_image(img_w: int, img_h: int, avail_w: int, avail_h: int)
    requires
        img_w <= avail_w,
        img_h <= avail_h,
    ensures
        viewport(img_w, img_h, avail_w, avail_h) == (img_w, img_h),
{
}

} // verus!
