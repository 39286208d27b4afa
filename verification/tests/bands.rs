use arraxis::bands::{band_cutoffs, BandSplit};
use arraxis::editor::visible_crossovers;
use arraxis::iir::biquad::BiquadFilterType;
use arraxis::satfuncs::DistFuncs;
use arraxis::NUM_BANDS;

#[test]
fn all_cutoffs_from_user_with_five_bands() {
    let r = band_cutoffs(5, [250.0f32, 1000.0, 4000.0, 10000.0], 20000.0);
    assert_eq!(r, vec![250.0, 1000.0, 4000.0, 10000.0, 20000.0]);
}

#[test]
fn unused_crossovers_get_fallback() {
    let r = band_cutoffs(3, [250.0f32, 1000.0, 4000.0, 10000.0], 20000.0);
    assert_eq!(r, vec![250.0, 1000.0, 20000.0, 20000.0, 20000.0]);
    let one = band_cutoffs(1, [250.0f32, 1000.0, 4000.0, 10000.0], 20000.0);
    assert_eq!(one, vec![20000.0; 5]);
}

#[test]
fn sliders_match_cutoffs_in_use() {
    let user = [1u32, 2, 3, 4];
    for active in 0..=6 {
        let r = band_cutoffs(active, user, 0);
        let shown = visible_crossovers(active);
        for i in 0..NUM_BANDS {
            assert_eq!(i < shown, r[i] != 0, "active {} crossover {}", active, i);
        }
    }
}

#[test]
fn split_with_no_crossover_keeps_sample() {
    let s = BandSplit::new(0.5f32, 0);
    assert_eq!(s.next_input(), None);
    assert_eq!(s.into_bands(), vec![0.5f32; 6]);
}

#[test]
fn split_feeds_high_part_upwards() {
    let mut s = BandSplit::new(100i32, 3);
    let mut order = Vec::new();
    while let Some((i, x)) = s.next_input() {
        order.push((i, x));
        // low part keeps a fifth, the high part the rest
        s.feed(x / 5, x - x / 5);
    }
    assert_eq!(order, vec![(0, 100), (1, 80), (2, 64)]);
    assert_eq!(s.into_bands(), vec![20, 16, 12, 52, 100, 100]);
}

#[test]
fn split_with_all_bands() {
    let mut s = BandSplit::new(1u8, 5);
    let mut n = 0;
    while let Some((i, x)) = s.next_input() {
        assert_eq!(i, n);
        s.feed(10 + i as u8, x + 1);
        n += 1;
    }
    assert_eq!(n, 5);
    assert_eq!(s.into_bands(), vec![10, 11, 12, 13, 14, 6]);
}

#[test]
fn enums_compare_by_variant() {
    assert_eq!(DistFuncs::HardClip, DistFuncs::HardClip);
    assert_ne!(DistFuncs::SoftClip, DistFuncs::SineSoftClip);
    assert_ne!(BiquadFilterType::LowPass, BiquadFilterType::HighPass);
}

#[test]
fn active_bands_are_the_low_parts() {
    let mut s = BandSplit::new(100i32, 3);
    while let Some((_, x)) = s.next_input() {
        s.feed(x / 5, x - x / 5);
    }
    assert_eq!(s.into_active_bands(), vec![20, 16, 12]);
    let mut one = BandSplit::new(7i32, 1);
    while let Some((_, x)) = one.next_input() {
        one.feed(x - 1, 1);
    }
    assert_eq!(one.into_active_bands(), vec![6]);
    let none = BandSplit::new(7i32, 0);
    assert_eq!(none.into_active_bands(), Vec::<i32>::new());
}
