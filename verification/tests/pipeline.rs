use simple_bitcrush::mixer::mix;
use simple_bitcrush::SimpleBitcrush;

fn coefficient(cutoff: f32, sample_rate: f32) -> f32 {
    let warped = 0.1 * f32::tan(std::f32::consts::PI * cutoff / sample_rate);
    (warped - 1.0) / (warped + 1.0)
}

fn run_channel(
    effect: &mut SimpleBitcrush,
    channel: usize,
    input: &[f32],
    rate: i32,
    cutoff: f32,
    wet: f32,
) -> Vec<f32> {
    let a1 = coefficient(cutoff, f32::from_bits(effect.sample_rate()));
    let mut out = Vec::new();
    for (position, dry) in input.iter().enumerate() {
        let held = f32::from_bits(effect.decimate(channel, position, rate, dry.to_bits()));
        let state = f32::from_bits(effect.filter_state(channel));
        let allpass = a1 * held + state;
        effect.store_filter_state(channel, (held - a1 * allpass).to_bits());
        let filtered = 0.5 * (held + allpass);
        let blend = dry * (1.0 - wet) + filtered * wet;
        out.push(f32::from_bits(mix(
            dry.to_bits(),
            filtered.to_bits(),
            wet.to_bits(),
            blend.to_bits(),
        )));
    }
    out
}

fn configured(channels: u32) -> SimpleBitcrush {
    let mut effect = SimpleBitcrush::default();
    assert!(effect.initialize(44100.0f32.to_bits(), Some(channels)));
    effect
}

#[test]
fn impulse_response_at_full_wet() {
    let mut effect = configured(1);
    let out = run_channel(&mut effect, 0, &[1.0, 0.0, 0.0, 0.0], 1, 20000.0, 1.0);
    let a1 = coefficient(20000.0, 44100.0);
    assert!((a1 - -0.190_561_53).abs() < 1.0e-5);
    let by_formula = [
        0.5 * (1.0 + a1),
        0.5 * (1.0 - a1 * a1),
        0.5 * -a1 * (1.0 - a1 * a1),
        0.5 * a1 * a1 * (1.0 - a1 * a1),
    ];
    let by_value = [0.404_719_24, 0.481_843_15, 0.091_820_77, 0.017_497_506];
    for k in 0..4 {
        assert!((out[k] - by_formula[k]).abs() < 1.0e-6);
        assert!((out[k] - by_value[k]).abs() < 1.0e-5);
    }
}

#[test]
fn wet_zero_is_the_identity_for_any_rate_and_cutoff() {
    let input = [0.5, -0.25, 0.0, -0.0, 1.0, 0.125, -1.0, 0.75, 0.3];
    for rate in [0, 1, 2, 4, 30] {
        for cutoff in [20.0, 1000.0, 20000.0] {
            let mut effect = configured(2);
            let out = run_channel(&mut effect, 1, &input, rate, cutoff, 0.0);
            for (a, b) in input.iter().zip(out.iter()) {
                assert_eq!(a.to_bits(), b.to_bits());
            }
        }
    }
}

#[test]
fn wet_one_does_not_depend_on_the_dry_path() {
    let input = [0.5, -0.25, 0.0, 1.0, 0.125, -1.0, 0.75, 0.3];
    let mut effect = configured(1);
    let mixed = run_channel(&mut effect, 0, &input, 3, 5000.0, 1.0);
    let a1 = coefficient(5000.0, 44100.0);
    let mut state = 0.0f32;
    let mut held = 0.0f32;
    for (position, x) in input.iter().enumerate() {
        if position % 3 == 0 {
            held = *x;
        }
        let allpass = a1 * held + state;
        state = held - a1 * allpass;
        assert_eq!(mixed[position].to_bits(), (0.5 * (held + allpass)).to_bits());
    }
}

#[test]
fn staircase_reaches_the_filter() {
    let mut effect = configured(1);
    let mut seen = Vec::new();
    for (position, x) in [1.0f32, 2.0, 3.0, 4.0, 5.0, 6.0, 7.0, 8.0].iter().enumerate() {
        seen.push(f32::from_bits(effect.decimate(0, position, 4, x.to_bits())));
    }
    assert_eq!(seen, vec![1.0, 1.0, 1.0, 1.0, 5.0, 5.0, 5.0, 5.0]);
    assert_eq!(f32::from_bits(effect.hold_value(0)), 5.0);
}

#[test]
fn filter_memory_carries_from_block_to_block() {
    let mut whole = configured(1);
    let mut split = configured(1);
    let input = [1.0, 0.5, -0.5, 0.25];
    let a = run_channel(&mut whole, 0, &input, 1, 800.0, 1.0);
    let mut b = run_channel(&mut split, 0, &input[..2], 1, 800.0, 1.0);
    b.extend(run_channel(&mut split, 0, &input[2..], 1, 800.0, 1.0));
    assert_eq!(a, b);
    assert_eq!(whole.filter_state(0), split.filter_state(0));
    split.reset();
    assert_eq!(split.filter_state(0), 0);
}
