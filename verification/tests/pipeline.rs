use biquad::{Biquad, Coefficients, DirectForm2Transposed, ToHertz, Type, Q_BUTTERWORTH_F32};
use musicboom::band::Band;
use musicboom::config::Config;
use musicboom::consumer::{Consumer, Outcome, Step, StopReason, Verdict};
use musicboom::envelope::Reduction;
use musicboom::filter::{FilterBank, FilterSpec, Shape, MILLI};
use musicboom::level::UNIT;
use musicboom::message::{AudioBlock, Message};

fn to_level(x: f64) -> i64 {
    (x * UNIT as f64).round() as i64
}

fn coefficients(spec: &FilterSpec) -> Result<Coefficients<f32>, biquad::Errors> {
    let shape = match spec.shape() {
        Shape::LowPass => Type::LowPass,
        Shape::HighPass => Type::HighPass,
    };
    let sample_rate = spec.sample_rate() as u32;
    let cutoff = (spec.cutoff() as f64 / MILLI as f64) as f32;
    Coefficients::<f32>::from_params(shape, sample_rate.hz(), cutoff.hz(), Q_BUTTERWORTH_F32)
}

fn run_filter(spec: &FilterSpec, data: &[f32]) -> Vec<i64> {
    let mut section = DirectForm2Transposed::<f32>::new(coefficients(spec).unwrap());
    data.iter().map(|&x| to_level(section.run(x) as f64)).collect()
}

/// One block through the whole pass, with the device taking every command.
fn pass(consumer: &mut Consumer, samples: Vec<f32>, sample_rate: usize) -> Vec<u64> {
    match consumer.accept(Some(Message::Data(AudioBlock { samples, sample_rate }))) {
        Step::Filter { block, bank } => {
            let low = run_filter(&bank.filter(Band::Low), &block.samples);
            let high = run_filter(&bank.filter(Band::High), &block.samples);
            let out = consumer.analyze(&low, &high).unwrap();
            assert_eq!(consumer.settle(Outcome::Sent), Verdict::Continue);
            out.to_vec()
        }
        other => panic!("not handed out: {:?}", other),
    }
}

#[test]
fn every_accepted_design_can_be_built() {
    for rate in [4_001usize, 8_000, 22_050, 44_100, 48_000, 96_000, 192_000] {
        let nyquist = rate as u64 * MILLI / 2;
        let cutoffs = [1, 999, 1_000, 200_000, 2_000_000, nyquist / 2, nyquist - 1];
        for cutoff in cutoffs {
            for shape in [Shape::LowPass, Shape::HighPass] {
                let spec = FilterSpec::new(shape, rate, cutoff).unwrap();
                assert!(coefficients(&spec).is_ok());
            }
        }
        assert!(FilterSpec::new(Shape::LowPass, rate, nyquist + 1).is_err());
        assert!(FilterSpec::new(Shape::LowPass, rate, rate as u64 * MILLI).is_err());
    }
}

#[test]
fn a_bank_for_a_new_rate_can_be_built_whenever_it_is_accepted() {
    for rate in [3_999usize, 4_000, 4_001, 8_000, 44_100, 48_000] {
        match FilterBank::new(rate, 200_000) {
            Ok(bank) => {
                assert!(rate > 4_000);
                assert!(coefficients(&bank.filter(Band::Low)).is_ok());
                assert!(coefficients(&bank.filter(Band::High)).is_ok());
            }
            Err(_) => assert!(rate <= 4_000),
        }
    }
}

#[test]
fn an_all_zero_block_stays_zero_through_filters_and_normalisation() {
    for reduction in [Reduction::Min, Reduction::Max, Reduction::Mean] {
        let mut c = Consumer::new(Config { reduction, ..Config::default() });
        let loud: Vec<f32> = (0..512).map(|i| if i % 2 == 0 { 0.5 } else { -0.5 }).collect();
        pass(&mut c, loud, 48_000);
        assert!(c.peak(Band::High) > 100);
        assert_eq!(pass(&mut c, vec![0.0; 512], 48_000), vec![0, 0]);
        assert_eq!(pass(&mut c, vec![0.0; 512], 44_100), vec![0, 0]);
        assert_eq!(pass(&mut c, Vec::new(), 48_000), vec![0, 0]);
    }
}

#[test]
fn every_intensity_of_a_filtered_signal_lies_between_zero_and_one_unit() {
    let mut c = Consumer::new(Config { reduction: Reduction::Max, ..Config::default() });
    let mut seed: u32 = 12_345;
    for block in 0..50 {
        let data: Vec<f32> = (0..256)
            .map(|_| {
                seed = seed.wrapping_mul(1_664_525).wrapping_add(1_013_904_223);
                (seed >> 8) as f32 / 8_388_608.0 - 1.0
            })
            .map(|x| x * (block as f32 + 1.0) * 1_000.0)
            .collect();
        let out = pass(&mut c, data, 48_000);
        assert_eq!(out.len(), 2);
        assert!(out[0] <= UNIT && out[1] <= UNIT);
    }
}

#[test]
fn quit_after_filtered_blocks_ends_the_run() {
    let mut c = Consumer::new(Config::default());
    for _ in 0..3 {
        pass(&mut c, vec![0.25; 64], 48_000);
    }
    assert!(matches!(c.accept(Some(Message::<f32>::Quit)), Step::Stop(StopReason::Quit)));
}
