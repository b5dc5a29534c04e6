use musicboom::band::Band;
use musicboom::level::{EPSILON, UNIT};
use musicboom::normalizer::{Magnitudes, Normalizer};

const GAIN: i64 = 1_100_000_000_000;

#[test]
fn a_new_normalizer_has_every_peak_at_epsilon() {
    let n = Normalizer::new(GAIN);
    assert_eq!(n.peak(Band::Low), EPSILON);
    assert_eq!(n.peak(Band::High), EPSILON);
    assert_eq!(n.shared_peak(), EPSILON);
}

#[test]
fn the_first_block_calibrates_both_bands_to_full_scale() {
    let mut n = Normalizer::new(GAIN);
    let out = n.process(Magnitudes { low: 500_000_000_000, high: 250_000_000_000 });
    assert_eq!(out.low(), UNIT);
    assert_eq!(out.high(), UNIT);
    assert_eq!(n.peak(Band::Low), 499_950_000_000);
    assert_eq!(n.peak(Band::High), 249_975_000_000);
    assert_eq!(n.shared_peak(), 999_000_000_000);
}

#[test]
fn the_second_block_is_scaled_by_band_peak_then_shared_peak_then_gain() {
    let mut n = Normalizer::new(GAIN);
    n.process(Magnitudes { low: 500_000_000_000, high: 250_000_000_000 });
    let out = n.process(Magnitudes { low: 249_975_000_000, high: 0 });
    assert_eq!(out.low(), 550_550_550_550);
    assert_eq!(out.high(), 0);
    assert_eq!(out.get(Band::Low), 550_550_550_550);
    assert_eq!(out.get(Band::High), 0);
    assert_eq!(out.to_vec(), vec![550_550_550_550, 0]);
    assert_eq!(n.peak(Band::Low), 499_900_005_000);
    assert_eq!(n.peak(Band::High), 249_950_002_500);
    assert_eq!(n.shared_peak(), 998_001_000_000);
}

#[test]
fn a_gain_of_one_leaves_the_quotient() {
    // Both peaks start at 100 steps: the low band reaches its peak, the
    // high band a quarter of it, and the largest share becomes the ceiling.
    let mut n = Normalizer::new(UNIT as i64);
    let out = n.process(Magnitudes { low: 100, high: 25 });
    assert_eq!(out.low(), UNIT);
    assert_eq!(out.high(), 250_000_000_000);
    // The band peak has decayed from 20_000 to 19_998 and the shared peak
    // from one unit to 0.999: a half becomes 0.5 / 0.999 and a third
    // 0.333... / 0.999, both rounded down.
    let mut n = Normalizer::new(UNIT as i64);
    n.process(Magnitudes { low: 20_000, high: 20_000 });
    let out = n.process(Magnitudes { low: 9_999, high: 6_666 });
    assert_eq!(out.low(), 500_500_500_500);
    assert_eq!(out.high(), 333_667_000_333);
}

#[test]
fn the_clamp_comes_after_the_gain() {
    let mut n = Normalizer::new(4 * UNIT as i64);
    let out = n.process(Magnitudes { low: 100, high: 10 });
    assert_eq!(out.low(), UNIT);
    assert_eq!(out.high(), 400_000_000_000);
}

#[test]
fn a_negative_gain_is_clamped_to_zero() {
    let mut n = Normalizer::new(-GAIN);
    let out = n.process(Magnitudes { low: 5, high: 7 });
    assert_eq!(out.low(), 0);
    assert_eq!(out.high(), 0);
    let mut z = Normalizer::new(0);
    let out = z.process(Magnitudes { low: 5, high: 7 });
    assert_eq!(out.to_vec(), vec![0, 0]);
}

#[test]
fn every_intensity_lies_between_zero_and_one_unit() {
    let gains: [i64; 7] = [i64::MIN, -GAIN, 0, 1, GAIN, 1_000 * GAIN, i64::MAX];
    let mags: [u64; 6] = [0, 1, 99, 1_000_000, UNIT, u64::MAX];
    for gain in gains {
        let mut n = Normalizer::new(gain);
        for low in mags {
            for high in mags {
                let out = n.process(Magnitudes { low, high });
                assert!(out.low() <= UNIT);
                assert!(out.high() <= UNIT);
                assert_eq!(out.to_vec().len(), 2);
                assert!(n.peak(Band::Low) >= 1);
                assert!(n.peak(Band::High) >= 1);
                assert!(n.shared_peak() >= 1 && n.shared_peak() <= UNIT);
            }
        }
    }
}

#[test]
fn an_all_zero_block_gives_zero_in_both_bands() {
    let mut fresh = Normalizer::new(GAIN);
    let out = fresh.process(Magnitudes { low: 0, high: 0 });
    assert_eq!(out.to_vec(), vec![0, 0]);

    let mut used = Normalizer::new(GAIN);
    used.process(Magnitudes { low: 700_000_000_000, high: 30_000_000_000 });
    let out = used.process(Magnitudes { low: 0, high: 0 });
    assert_eq!(out.low(), 0);
    assert_eq!(out.high(), 0);
}

#[test]
fn peaks_decay_between_blocks_without_a_new_maximum() {
    let mut n = Normalizer::new(GAIN);
    n.process(Magnitudes { low: UNIT, high: UNIT });
    let mut low = n.peak(Band::Low);
    let mut high = n.peak(Band::High);
    let mut shared = n.shared_peak();
    assert_eq!(low, 999_900_000_000);
    assert_eq!(shared, 999_000_000_000);
    for _ in 0..200 {
        n.process(Magnitudes { low: 0, high: 0 });
        assert!(n.peak(Band::Low) < low);
        assert!(n.peak(Band::High) < high);
        assert!(n.shared_peak() < shared);
        low = n.peak(Band::Low);
        high = n.peak(Band::High);
        shared = n.shared_peak();
    }
}

#[test]
fn a_new_maximum_lifts_the_peak_to_itself() {
    let mut n = Normalizer::new(GAIN);
    n.process(Magnitudes { low: 1_000, high: 10 });
    n.process(Magnitudes { low: 2_000_000, high: 5 });
    // 2_000_000 * 0.9999
    assert_eq!(n.peak(Band::Low), 1_999_800);
    // the high band never exceeds its starting peak of 100 steps, which
    // loses one step per block
    assert_eq!(n.peak(Band::High), 98);
}

#[test]
fn a_steady_low_band_beside_a_silent_high_band_settles_at_the_clamped_gain() {
    let mut n = Normalizer::new(GAIN);
    let mut last = n.process(Magnitudes { low: 300_000_000_000, high: 0 });
    for _ in 0..5_000 {
        last = n.process(Magnitudes { low: 300_000_000_000, high: 0 });
    }
    assert_eq!(last.low(), UNIT);
    assert_eq!(last.high(), 0);

    let mut quiet = Normalizer::new(600_000_000_000);
    let mut last = quiet.process(Magnitudes { low: 300_000_000_000, high: 0 });
    for _ in 0..5_000 {
        last = quiet.process(Magnitudes { low: 300_000_000_000, high: 0 });
    }
    assert_eq!(last.low(), 600_000_000_000);
    assert_eq!(last.high(), 0);
}

#[test]
fn a_faint_but_steady_band_is_lifted_to_full_scale_by_its_own_peak() {
    // The high band carries one step only, a millionth of a millionth, but
    // once its peak has decayed to that step it fills the scale as well.
    let mut n = Normalizer::new(GAIN);
    let mut last = n.process(Magnitudes { low: 300_000_000_000, high: 1 });
    assert_eq!(last.high(), 11_000_000_000);
    for _ in 0..100 {
        last = n.process(Magnitudes { low: 300_000_000_000, high: 1 });
    }
    assert_eq!(n.peak(Band::High), 1);
    assert_eq!(last.low(), UNIT);
    assert_eq!(last.high(), UNIT);
}

#[test]
fn a_band_below_its_peak_settles_once_the_peak_has_decayed_to_it() {
    let mut n = Normalizer::new(UNIT as i64);
    n.process(Magnitudes { low: 1_000_000, high: 0 });
    let steady = Magnitudes { low: 990_000, high: 0 };
    let mut blocks = 0;
    loop {
        let at_peak = n.peak(Band::Low) <= steady.low;
        let out = n.process(steady);
        assert_eq!(out.high(), 0);
        if at_peak {
            assert_eq!(out.low(), UNIT);
            break;
        }
        blocks += 1;
    }
    // the peak has decayed once already, and 99 steps more take it from
    // 999_900 down to 990_000
    assert_eq!(blocks, 99);
    assert_eq!(n.peak(Band::Low), 989_901);
    for _ in 0..1_000 {
        assert_eq!(n.process(steady).to_vec(), vec![UNIT, 0]);
    }
}
