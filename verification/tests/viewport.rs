use pixelmask::viewport::fit;
use pixelmask::viewport::get_img_viewport;

#[test]
fn img_viewport() {
    assert_eq!(get_img_viewport((2, 2), (4, 4)), (2, 2));
    assert_eq!(get_img_viewport((4, 4), (2, 2)), (2, 2));
    assert_eq!(get_img_viewport((2, 4), (4, 4)), (2, 4));
    assert_eq!(get_img_viewport((10, 10), (8, 4)), (4, 4));
    assert_eq!(get_img_viewport((20, 10), (8, 4)), (8, 4));
}

#[test]
fn viewport_leaves_a_fitting_image_alone() {
    assert_eq!(get_img_viewport((1, 1), (1, 1)), (1, 1));
    assert_eq!(get_img_viewport((80, 24), (80, 24)), (80, 24));
    assert_eq!(get_img_viewport((3, 7), (100, 100)), (3, 7));
}

#[test]
fn viewport_squeezes_height_first_then_width() {
    // 100 x 50 into 30 x 20: height first gives 40 x 20, then width gives 30 x 15.
    assert_eq!(get_img_viewport((100, 50), (30, 20)), (30, 15));
    // 50 x 100 into 30 x 20: height first gives 10 x 20, which fits.
    assert_eq!(get_img_viewport((50, 100), (30, 20)), (10, 20));
    // Only too wide.
    assert_eq!(get_img_viewport((100, 10), (30, 20)), (30, 3));
}

#[test]
fn viewport_rounds_down() {
    // 7 * 4 / 5 = 5.6
    assert_eq!(get_img_viewport((7, 5), (100, 4)), (5, 4));
    // 5 * 3 / 7 = 2.14...
    assert_eq!(get_img_viewport((7, 5), (3, 100)), (3, 2));
    // 9 * 2 / 3 = 6, then 2 * 5 / 6 = 1.66...
    assert_eq!(get_img_viewport((9, 3), (5, 2)), (5, 1));
}

#[test]
fn viewport_stays_within_the_available_area() {
    for iw in 1..=24u32 {
        for ih in 1..=24u32 {
            for aw in 1..=12u32 {
                for ah in 1..=12u32 {
                    let (w, h) = get_img_viewport((iw, ih), (aw, ah));
                    assert!(w <= aw && h <= ah, "{iw}x{ih} into {aw}x{ah} gave {w}x{h}");
                    let squeezed_w = if ih > ah { iw * ah / ih } else { iw };
                    let squeezed_h = if ih > ah { ah } else { ih };
                    let keeps = squeezed_w >= 1
                        && (squeezed_w <= aw || squeezed_h * aw >= squeezed_w);
                    assert_eq!(keeps, w >= 1 && h >= 1, "{iw}x{ih} into {aw}x{ah}");
                }
            }
        }
    }
}

#[test]
fn viewport_of_an_extreme_shape_loses_a_side() {
    // A thin, tall image: its width is rounded down to nothing.
    assert_eq!(get_img_viewport((1, 10), (4, 4)), (0, 4));
    // A flat, wide image: its height is rounded down to nothing.
    assert_eq!(get_img_viewport((10, 1), (4, 4)), (4, 0));
}

#[test]
fn viewport_with_an_empty_side() {
    assert_eq!(get_img_viewport((0, 0), (4, 4)), (0, 0));
    assert_eq!(get_img_viewport((5, 5), (0, 4)), (0, 0));
    assert_eq!(get_img_viewport((5, 5), (4, 0)), (0, 0));
    assert_eq!(get_img_viewport((0, 9), (4, 4)), (0, 4));
    assert_eq!(get_img_viewport((9, 0), (4, 4)), (4, 0));
}

#[test]
fn viewport_of_the_largest_sizes_does_not_overflow() {
    let max = u32::MAX;
    assert_eq!(get_img_viewport((max, max), (max, max)), (max, max));
    assert_eq!(get_img_viewport((max, max), (1000, 500)), (500, 500));
    assert_eq!(get_img_viewport((max, 2), (max, 1)), (max / 2, 1));
    assert_eq!(fit(u64::MAX, u64::MAX, 7, u64::MAX - 1), (7, 7));
    // u64::MAX is a multiple of 3.
    assert_eq!(fit(u64::MAX, 3, u64::MAX - 1, 2), (u64::MAX / 3 * 2, 2));
}

#[test]
fn fit_agrees_with_get_img_viewport() {
    for iw in 0..=9u32 {
        for ih in 0..=9u32 {
            for aw in 0..=5u32 {
                for ah in 0..=5u32 {
                    let (w, h) = get_img_viewport((iw, ih), (aw, ah));
                    assert_eq!(
                        fit(iw as u64, ih as u64, aw as u64, ah as u64),
                        (w as u64, h as u64)
                    );
                }
            }
        }
    }
}
