use pmd_core::opna::fm::{FmEngine, ALL_CHANNELS};
use pmd_core::opna::replay::RegisterReplay;
use pmd_core::opna::ssg::Ssg;

fn configure_carrier(engine: &mut FmEngine) {
    engine.write(0xa4, 0x01);
    engine.write(0xa0, 0x80);
    engine.write(0xb0, 0x07);
    engine.write(0xb4, 0xc0);
    for base in [0x00, 0x04, 0x08, 0x0c] {
        engine.write(0x30 + base, 0x01);
        engine.write(0x40 + base, 0x00);
        engine.write(0x50 + base, 0x1f);
        engine.write(0x60 + base, 0x00);
        engine.write(0x70 + base, 0x00);
        engine.write(0x80 + base, 0x0f);
    }
    engine.write(0x28, 0xf0);
}

#[test]
fn register_replay_produces_deterministic_fm_samples_after_key_on() {
    let mut first = FmEngine::new();
    configure_carrier(&mut first);
    let mut samples = [[0; 2]; 8];
    for sample in &mut samples {
        first.clock(ALL_CHANNELS);
        *sample = first.output(1, 32767, ALL_CHANNELS);
    }
    assert_eq!(
        samples,
        [
            [48, 48],
            [48, 48],
            [48, 48],
            [48, 48],
            [48, 48],
            [148, 148],
            [148, 148],
            [148, 148],
        ]
    );

    let mut second = FmEngine::new();
    configure_carrier(&mut second);
    for expected in samples {
        second.clock(ALL_CHANNELS);
        assert_eq!(second.output(1, 32767, ALL_CHANNELS), expected);
    }
    assert!(samples.iter().any(|sample| *sample != [0, 0]));
}

#[test]
fn key_on_is_applied_on_the_first_clock_not_at_register_write() {
    let mut engine = FmEngine::new();
    configure_carrier(&mut engine);
    assert_eq!(engine.output(1, 32767, ALL_CHANNELS), [0, 0]);
    engine.clock(ALL_CHANNELS);
    assert_ne!(engine.output(1, 32767, ALL_CHANNELS), [0, 0]);
}

#[test]
fn fm_take_peaks_reports_and_clears_channel_peaks() {
    let mut engine = FmEngine::new();
    configure_carrier(&mut engine);
    for _ in 0..8 {
        engine.clock(ALL_CHANNELS);
        engine.output(1, 32767, ALL_CHANNELS);
    }
    let peaks = engine.take_peaks();
    assert!(peaks[0] > 0);
    assert_eq!(&peaks[1..], &[0, 0, 0, 0, 0]);
    assert_eq!(engine.take_peaks(), [0; 6]);
}

#[test]
fn register_masks_and_periods_match_cpp() {
    let mut ssg = Ssg::new();
    ssg.reset();
    ssg.write(0x00, 0x34);
    ssg.write(0x01, 0x0f);
    ssg.write(0x06, 0xff);
    assert_eq!(ssg.read(0x01), 0x0f);
    assert_eq!(ssg.channel_tone_period(0), 0x0f34);
    assert_eq!(ssg.noise_period(), 0x1f);
}

#[test]
fn tone_divider_and_output_match_cpp_vectors() {
    let mut ssg = Ssg::new();
    ssg.write(0x00, 2);
    ssg.write(0x06, 31);
    ssg.write(0x07, 0x08);
    ssg.write(0x08, 0x0f);
    let mut output = [0; 3];
    let expected = [0, 0, 16382, 16382, 0, 0];
    for expected_sample in expected {
        ssg.output(&mut output);
        assert_eq!(output[0], expected_sample);
        ssg.clock();
    }
}

#[test]
fn noise_lfsr_and_gate_match_cpp_vectors() {
    let mut ssg = Ssg::new();
    ssg.write(0x07, 0x01);
    ssg.write(0x06, 1);
    ssg.write(0x08, 0x0f);
    let expected = [
        (0x00000001, 16382),
        (0x00000001, 16382),
        (0x00010000, 0),
        (0x00010000, 0),
        (0x00008000, 0),
        (0x00008000, 0),
        (0x00004000, 0),
        (0x00004000, 0),
    ];
    let mut output = [0; 3];
    for (expected_state, expected_sample) in expected {
        ssg.output(&mut output);
        assert_eq!((ssg.noise_state(), output[0]), (expected_state, expected_sample));
        ssg.clock();
    }
}

#[test]
fn envelope_shapes_match_cpp_vectors() {
    let cases = [
        (0, [(0, 16382), (1, 14132), (2, 11976), (3, 9963), (31, 0), (32, 0)]),
        (4, [(0, 0), (1, 32), (2, 78), (3, 141), (31, 16382), (32, 0)]),
        (8, [(0, 16382), (1, 14132), (2, 11976), (3, 9963), (31, 0), (32, 16382)]),
        (12, [(0, 0), (1, 32), (2, 78), (3, 141), (31, 16382), (32, 0)]),
    ];
    for (shape, expected) in cases {
        let mut ssg = Ssg::new();
        ssg.write(0x07, 0x3f);
        ssg.write(0x08, 0x10);
        ssg.write(0x0b, 1);
        ssg.write(0x0d, shape);
        let mut output = [0; 3];
        for (index, (expected_state, expected_sample)) in expected.into_iter().enumerate() {
            while ssg.envelope_state() != expected_state {
                ssg.clock();
            }
            ssg.output(&mut output);
            assert_eq!(
                (ssg.envelope_state(), output[0]),
                (expected_state, expected_sample),
                "shape={shape} index={index}"
            );
        }
    }
}

#[test]
fn envelope_shape_write_resets_state() {
    let mut ssg = Ssg::new();
    ssg.write(0x0b, 1);
    for _ in 0..4 {
        ssg.clock();
    }
    assert_eq!(ssg.envelope_state(), 4);
    ssg.write(0x0d, 0);
    assert_eq!(ssg.envelope_state(), 0);
}

#[test]
fn routes_ssg_registers_and_clocks_them_alongside_fm() {
    let mut replay = RegisterReplay::new();
    replay.write(0x07, 0x08);
    replay.write(0x08, 0x0f);
    replay.write(0x00, 2);
    assert_eq!(replay.clock()[2], 0);
    assert_eq!(replay.clock()[2], 16382);
    assert_eq!(replay.clock()[2], 16382);
}

#[test]
fn replay_reset_silences_ssg_and_default_matches_new() {
    let mut replay = RegisterReplay::default();
    replay.write(0x07, 0x08);
    replay.write(0x08, 0x0f);
    replay.write(0x00, 2);
    replay.clock();
    replay.reset();
    for _ in 0..4 {
        assert_eq!(replay.clock(), [0, 0, 0]);
    }
}
