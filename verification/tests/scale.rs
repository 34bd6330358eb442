use rvu::scale::SCREEN_PERCENT;
use rvu::{calc_scale, scaled_extent, uniform_scale, usable_extent, Extent};

#[test]
fn image_three_times_the_bound_is_divided_by_three() {
    assert_eq!(calc_scale(1000, 3000), 3);
}

#[test]
fn image_within_the_bound_keeps_its_size() {
    assert_eq!(calc_scale(1000, 900), 1);
}

#[test]
fn one_pixel_over_a_multiple_rounds_up() {
    assert_eq!(calc_scale(500, 1000), 2);
    assert_eq!(calc_scale(500, 1001), 3);
}

#[test]
fn image_equal_to_the_bound_keeps_its_size() {
    assert_eq!(calc_scale(640, 640), 1);
    assert_eq!(calc_scale(1, 1), 1);
    assert_eq!(calc_scale(u32::MAX, u32::MAX), 1);
}

#[test]
fn one_pixel_over_the_bound_is_halved() {
    assert_eq!(calc_scale(640, 641), 2);
    assert_eq!(calc_scale(u32::MAX - 1, u32::MAX), 2);
}

#[test]
fn bound_of_one_pixel_gives_the_native_size() {
    assert_eq!(calc_scale(1, 7), 7);
    assert_eq!(calc_scale(1, u32::MAX), u32::MAX);
}

#[test]
fn large_sizes_are_divided_exactly() {
    assert_eq!(calc_scale(1, 16_777_217), 16_777_217);
    assert_eq!(calc_scale(3, 16_777_217), 5_592_406);
    assert_eq!(calc_scale(2, u32::MAX), 2_147_483_648);
    assert_eq!(calc_scale(65_536, u32::MAX), 65_536);
    assert_eq!(calc_scale(65_535, u32::MAX), 65_537);
}

#[test]
fn factor_is_one_whenever_the_image_fits() {
    let bounds: [u32; 5] = [1, 2, 90, 1000, 4_000_000_000];
    for bound in bounds {
        let natives: [u32; 4] = [1, bound / 2 + 1, bound - bound / 3, bound];
        for native in natives {
            assert_eq!(calc_scale(bound, native), 1);
        }
    }
}

#[test]
fn factor_covers_the_image_and_one_less_does_not() {
    let bounds: [u64; 6] = [1, 2, 3, 500, 972, 65_536];
    for bound in bounds {
        let mut native: u64 = bound + 1;
        while native < 40 * bound && native <= u64::from(u32::MAX) {
            let scale: u64 = u64::from(calc_scale(bound as u32, native as u32));
            assert!(scale * bound >= native);
            assert!((scale - 1) * bound < native);
            assert!(native / scale <= bound);
            native += bound / 3 + 1;
        }
    }
}

#[test]
fn factor_never_decreases_as_the_image_grows() {
    let bounds: [u32; 4] = [1, 7, 500, 1728];
    for bound in bounds {
        let mut previous: u32 = calc_scale(bound, 1);
        let mut native: u32 = 2;
        while native < 12_000 {
            let scale: u32 = calc_scale(bound, native);
            assert!(scale >= previous);
            previous = scale;
            native += 1;
        }
    }
}

#[test]
fn uniform_factor_is_the_larger_of_the_two() {
    assert_eq!(calc_scale(900, 3000), 4);
    assert_eq!(calc_scale(1000, 1900), 2);
    assert_eq!(uniform_scale(Extent::new(900, 1000), Extent::new(3000, 1900)), 4);
}

#[test]
fn uniform_factor_follows_the_height_when_it_overflows_more() {
    assert_eq!(uniform_scale(Extent::new(1000, 900), Extent::new(1900, 3000)), 4);
}

#[test]
fn uniform_factor_is_one_when_both_axes_fit() {
    assert_eq!(uniform_scale(Extent::new(1728, 972), Extent::new(640, 480)), 1);
    assert_eq!(uniform_scale(Extent::new(1728, 972), Extent::new(1728, 972)), 1);
}

#[test]
fn uniform_factor_keeps_both_axes_within_the_bound() {
    let bound: Extent = Extent::new(1728, 972);
    let images: [(u32, u32); 5] = [(3000, 1900), (1729, 10), (10, 973), (40_000, 1), (5000, 5000)];
    for (width, height) in images {
        let scale: u32 = uniform_scale(bound, Extent::new(width, height));
        assert!(width / scale <= bound.width);
        assert!(height / scale <= bound.height);
    }
}

#[test]
fn usable_extent_is_nine_tenths_of_the_screen() {
    assert_eq!(SCREEN_PERCENT, 90);
    assert_eq!(usable_extent(Extent::new(1920, 1080)), Extent::new(1728, 972));
    assert_eq!(usable_extent(Extent::new(1000, 1111)), Extent::new(900, 999));
}

#[test]
fn usable_extent_rounds_down() {
    assert_eq!(usable_extent(Extent::new(1, 2)), Extent::new(0, 1));
    assert_eq!(usable_extent(Extent::new(0, 0)), Extent::new(0, 0));
    assert_eq!(usable_extent(Extent::new(11, 12)), Extent::new(9, 10));
}

#[test]
fn usable_extent_of_the_largest_screen_does_not_wrap() {
    assert_eq!(
        usable_extent(Extent::new(u32::MAX, 47_721_859)),
        Extent::new(3_865_470_565, 42_949_673)
    );
}

#[test]
fn scaled_extent_divides_both_axes_rounding_down() {
    assert_eq!(scaled_extent(Extent::new(3000, 1900), 4), Extent::new(750, 475));
    assert_eq!(scaled_extent(Extent::new(3001, 1903), 4), Extent::new(750, 475));
    assert_eq!(scaled_extent(Extent::new(640, 480), 1), Extent::new(640, 480));
    assert_eq!(scaled_extent(Extent::new(3, 480), 4), Extent::new(0, 120));
}

#[test]
fn extent_is_valid_only_with_two_positive_sides() {
    assert!(Extent::new(1, 1).is_valid());
    assert!(Extent::new(u32::MAX, 1).is_valid());
    assert!(!Extent::new(0, 1).is_valid());
    assert!(!Extent::new(1, 0).is_valid());
    assert!(!Extent::new(0, 0).is_valid());
}

#[test]
fn extent_keeps_what_it_was_made_of() {
    let extent: Extent = Extent::new(800, 600);
    assert_eq!(extent.width, 800);
    assert_eq!(extent.height, 600);
}
