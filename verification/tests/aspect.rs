use paxcii::keep_aspect_ratio;

#[test]
fn wide_source_is_limited_by_its_width() {
    // 80 / 1920 is the smaller ratio: the height is 1080 * 80 / 1920 = 45.
    assert_eq!(keep_aspect_ratio((1920, 1080), (80, 60)), (80, 45));
}

#[test]
fn tall_bound_is_limited_by_the_height() {
    // 24 / 1080 is the smaller ratio: the width is 1920 * 24 / 1080 = 42.67.
    assert_eq!(keep_aspect_ratio((1920, 1080), (80, 24)), (43, 24));
}

#[test]
fn same_shape_fills_the_bound() {
    assert_eq!(keep_aspect_ratio((640, 480), (64, 48)), (64, 48));
    assert_eq!(keep_aspect_ratio((30, 30), (30, 30)), (30, 30));
}

#[test]
fn fit_scales_up_as_well() {
    assert_eq!(keep_aspect_ratio((4, 2), (100, 100)), (100, 50));
    assert_eq!(keep_aspect_ratio((2, 4), (100, 100)), (50, 100));
}

#[test]
fn half_a_cell_rounds_up() {
    // 3 * 5 / 10 = 1.5
    assert_eq!(keep_aspect_ratio((10, 3), (5, 100)), (5, 2));
    // 3 * 4 / 10 = 1.2
    assert_eq!(keep_aspect_ratio((10, 3), (4, 100)), (4, 1));
}

#[test]
fn an_axis_never_shrinks_to_nothing() {
    // 1 * 10 / 1000 = 0.01 rounds to no cell at all; one is kept.
    assert_eq!(keep_aspect_ratio((1000, 1), (10, 10)), (10, 1));
    assert_eq!(keep_aspect_ratio((1, 1000), (10, 10)), (1, 10));
}

#[test]
fn fitted_size_lies_inside_the_bound_and_touches_it() {
    let sizes = [(1u32, 1u32), (3, 7), (16, 9), (9, 16), (1920, 1080), (1, 5000), (4096, 3)];
    let bounds = [(1u32, 1u32), (80, 24), (24, 80), (30, 30), (7, 1000), (200, 3)];
    for original in sizes {
        for bound in bounds {
            let (w, h) = keep_aspect_ratio(original, bound);
            assert!(1 <= w && w <= bound.0, "{original:?} in {bound:?} gave {w}x{h}");
            assert!(1 <= h && h <= bound.1, "{original:?} in {bound:?} gave {w}x{h}");
            assert!(w == bound.0 || h == bound.1, "{original:?} in {bound:?} gave {w}x{h}");
            // The free axis is within half a cell of its exact share, unless
            // that share is less than half a cell.
            let (ow, oh) = (original.0 as u64, original.1 as u64);
            let (bw, bh) = (bound.0 as u64, bound.1 as u64);
            if bw * oh <= bh * ow {
                assert_eq!(w, bound.0);
                let twice = 2 * oh * bw;
                let got = 2 * ow * h as u64;
                assert!(h == 1 || (twice < got + ow && got <= twice + ow));
            } else {
                assert_eq!(h, bound.1);
                let twice = 2 * ow * bh;
                let got = 2 * oh * w as u64;
                assert!(w == 1 || (twice < got + oh && got <= twice + oh));
            }
        }
    }
}

#[test]
fn the_largest_sizes_do_not_overflow() {
    assert_eq!(keep_aspect_ratio((u32::MAX, u32::MAX), (u32::MAX, u32::MAX)), (u32::MAX, u32::MAX));
    assert_eq!(keep_aspect_ratio((u32::MAX, 1), (u32::MAX, u32::MAX)), (u32::MAX, 1));
    assert_eq!(keep_aspect_ratio((1, 1), (u32::MAX, 7)), (7, 7));
}

#[test]
fn an_empty_axis_limits_nothing() {
    assert_eq!(keep_aspect_ratio((0, 1080), (80, 24)), (1, 24));
    assert_eq!(keep_aspect_ratio((1920, 0), (80, 24)), (80, 1));
    assert_eq!(keep_aspect_ratio((0, 0), (80, 24)), (1, 1));
}

#[test]
fn an_empty_bound_still_gives_a_cell() {
    assert_eq!(keep_aspect_ratio((16, 9), (0, 0)), (1, 1));
    assert_eq!(keep_aspect_ratio((16, 9), (0, 24)), (1, 1));
    assert_eq!(keep_aspect_ratio((16, 9), (80, 0)), (1, 1));
}
