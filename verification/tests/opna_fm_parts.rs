use pmd_core::opna::channel::{FmChannel, ALGORITHM_OPS};
use pmd_core::opna::envelope::{Envelope, EnvelopeState};
use pmd_core::opna::lfo::{opn_lfo_pm_phase_adjustment, opn_phase_step, Lfo};
use pmd_core::opna::operator::Operator;
use pmd_core::opna::registers::{OperatorConfig, OpnaRegisters};

#[test]
fn disabled_and_divider_quirk_match_cpp_vectors() {
    let mut lfo = Lfo::new();
    lfo.set_counter(123);
    assert_eq!(lfo.clock(false, 0), 0);
    assert_eq!((lfo.counter(), lfo.am()), (0, 0x3f));

    lfo.set_counter(108);
    assert_eq!(lfo.clock(true, 0), 0);
    assert_eq!((lfo.counter(), lfo.am()), (0x6d, 0x3f));
    assert_eq!(lfo.clock(true, 0), 0);
    assert_eq!((lfo.counter(), lfo.am()), (0x102, 0x3e));

    lfo.set_counter(5);
    assert_eq!(lfo.clock(true, 7), 0);
    assert_eq!((lfo.counter(), lfo.am()), (6, 0x3f));
    assert_eq!(lfo.clock(true, 7), 0);
    assert_eq!((lfo.counter(), lfo.am()), (0x102, 0x3e));
}

#[test]
fn am_wave_and_sensitivity_match_cpp_vectors() {
    let cases = [
        (0x000, 0x3f, 0, [0, 15, 63, 126]),
        (0x100, 0x3e, 0, [0, 15, 62, 124]),
        (0x3ff, 0x3b, 1, [0, 14, 59, 118]),
        (0x1fff, 0x1f, 7, [0, 7, 31, 62]),
        (0x3fff, 0x00, 0, [0, 0, 0, 0]),
        (0x4000, 0x00, 0, [0, 0, 0, 0]),
        (0x7fff, 0x3f, 0, [0, 15, 63, 126]),
    ];
    for (counter, expected_am, expected_pm, offsets) in cases {
        let mut lfo = Lfo::new();
        lfo.set_counter(counter);
        assert_eq!(lfo.clock(true, 0), expected_pm);
        assert_eq!(lfo.am(), expected_am);
        for (sensitivity, expected) in offsets.into_iter().enumerate() {
            assert_eq!(lfo.am_offset(sensitivity as u8), expected);
        }
    }
}

#[test]
fn phase_modulation_table_matches_cpp_vectors() {
    let expected = [
        [0, -5, -10, -15, -21, -31, -63, -127],
        [0, -5, -5, -10, -10, -21, -42, -85],
        [0, 0, 0, 0, 0, 0, 0, 0],
        [0, 0, 0, 0, 0, 0, 0, 0],
        [0, 5, 5, 10, 10, 21, 42, 85],
        [0, 5, 10, 15, 21, 31, 63, 127],
    ];
    for (raw_pm, expected_row) in [-7, -4, -1, 0, 4, 7].into_iter().zip(expected) {
        for (sensitivity, expected_value) in expected_row.into_iter().enumerate() {
            assert_eq!(
                opn_lfo_pm_phase_adjustment(0x55, sensitivity as u8, raw_pm),
                expected_value
            );
        }
    }
}

#[test]
fn phase_step_with_pm_matches_cpp_vectors() {
    assert_eq!(opn_phase_step(0x3456, -3, 3, 5, -7), 0xcdc3);
    assert_eq!(opn_phase_step(0x3456, -3, 3, 5, 0), 0xd01b);
    assert_eq!(opn_phase_step(0x3456, -3, 3, 5, 7), 0xd273);
}

#[test]
fn attack_clock_and_key_transitions_match_cpp_vectors() {
    let mut envelope = Envelope::new();
    envelope.set_rates([0, 20, 24, 16, 15, 0]);
    envelope.set_sustain(0x200);
    assert_eq!(
        (envelope.state(), envelope.attenuation(), envelope.inverted()),
        (EnvelopeState::Release, 0x3ff, false)
    );

    envelope.set_key_state(true);
    assert_eq!((envelope.state(), envelope.attenuation()), (EnvelopeState::Attack, 0x3ff));
    envelope.clock(256);
    assert_eq!((envelope.state(), envelope.attenuation()), (EnvelopeState::Attack, 0x3bf));
    envelope.clock(512);
    assert_eq!((envelope.state(), envelope.attenuation()), (EnvelopeState::Attack, 0x3bf));
    envelope.clock(768);
    assert_eq!((envelope.state(), envelope.attenuation()), (EnvelopeState::Attack, 0x383));
}

#[test]
fn fast_attack_transitions_to_decay_and_release() {
    let mut envelope = Envelope::new();
    envelope.set_rates([0, 62, 0, 0, 15, 0]);
    envelope.set_sustain(0);
    envelope.set_key_state(true);
    assert_eq!((envelope.state(), envelope.attenuation()), (EnvelopeState::Attack, 0));
    envelope.clock(0);
    assert_eq!((envelope.state(), envelope.attenuation()), (EnvelopeState::Sustain, 0));
    envelope.set_key_state(false);
    assert_eq!((envelope.state(), envelope.attenuation()), (EnvelopeState::Release, 0));
}

#[test]
fn ssg_hold_and_restart_modes_match_cpp_vectors() {
    let mut envelope = Envelope::new();
    envelope.set_ssg(true, 1);
    envelope.state = EnvelopeState::Sustain;
    envelope.attenuation = 0x280;
    envelope.clock(0);
    assert_eq!(
        (envelope.state(), envelope.attenuation(), envelope.inverted()),
        (EnvelopeState::Sustain, 0x3ff, false)
    );

    envelope.state = EnvelopeState::Sustain;
    envelope.attenuation = 0x280;
    envelope.set_ssg(true, 3);
    envelope.inverted = false;
    envelope.clock(0);
    assert_eq!(
        (envelope.state(), envelope.attenuation(), envelope.inverted()),
        (EnvelopeState::Sustain, 0x200, true)
    );

    envelope.state = EnvelopeState::Sustain;
    envelope.attenuation = 0x280;
    envelope.set_ssg(true, 0);
    envelope.inverted = false;
    envelope.clock(0);
    assert_eq!(
        (envelope.state(), envelope.attenuation(), envelope.inverted()),
        (EnvelopeState::Attack, 0x280, false)
    );
}

fn test_config() -> OperatorConfig {
    OperatorConfig {
        block_freq: 0x180,
        detune: 0,
        multiple: 1,
        pm_sensitivity: 0,
        total_level: 0,
        sustain: 0,
        rates: [0, 62, 0, 0, 15, 0],
        am_enabled: false,
        ssg_enabled: false,
        ssg_mode: 0,
    }
}

#[test]
fn volume_matches_cpp_operator_vectors() {
    let cases = [
        (0x000, 0x000, 0, false, false, 0x000, 0x000, 25),
        (0x001, 0x020, 0, false, false, 0x000, 0x000, 53),
        (0x0ff, 0x080, 0, false, false, 0x000, 0x000, 2042),
        (0x100, 0x200, 0, false, false, 0x000, 0x000, 31),
        (0x1ff, 0x380, 0, false, false, 0x000, 0x000, 0),
        (0x200, 0x000, 1, true, false, 0x000, 0x000, 0),
        (0x2ff, 0x100, 0, false, true, 0x020, 0x000, -361),
        (0x300, 0x100, 0, false, true, 0x200, 0x000, -1),
        (0x3ff, 0x100, 0, false, false, 0x000, 0x040, 0),
        (0x155, 0x381, 0, false, false, 0x000, 0x000, 0),
    ];

    for (phase, env, shift, inverted, am, am_offset, total, expected) in cases {
        let mut operator = Operator::new();
        operator.set_volume_state(env, shift, inverted, am, total);
        assert_eq!(operator.compute_volume(phase, am_offset), expected, "phase={phase:#x}");
    }
}

#[test]
fn phase_accumulator_matches_cpp_uint32_wrap() {
    let steps = [0x12345, 0x00001, 0x3ffff, 0x20000, 0xffff_ffff];
    let expected = [
        (0x12345, 0x0000_0048),
        (0x12346, 0x0000_0048),
        (0x52345, 0x0000_0148),
        (0x72345, 0x0000_01c8),
        (0x72344, 0x0000_01c8),
    ];
    let mut operator = Operator::new();

    for (step, (expected_raw, expected_phase)) in steps.into_iter().zip(expected) {
        operator.set_phase_step(step);
        operator.clock_phase();
        assert_eq!(operator.phase, expected_raw);
        assert_eq!(operator.phase(), expected_phase);
    }
}

#[test]
fn normal_key_on_resets_phase_after_release() {
    let config = test_config();
    let mut operator = Operator::new();
    assert!(!operator.prepare(config, false));
    operator.set_phase_step(0x12345);
    operator.clock_phase();
    assert_ne!(operator.phase, 0);

    operator.keyonoff(true);
    assert!(operator.prepare(config, false));
    assert_eq!(operator.phase, 0);
}

#[test]
fn opna_channel_and_operator_maps_match_ymfm() {
    assert_eq!(OpnaRegisters::channel_offset(0), 0x000);
    assert_eq!(OpnaRegisters::channel_offset(3), 0x100);
    assert_eq!(OpnaRegisters::operator_offsets(0), [0, 8, 4, 12]);
    assert_eq!(OpnaRegisters::operator_offsets(2), [2, 10, 6, 14]);
    assert_eq!(OpnaRegisters::operator_offsets(5), [0x102, 0x10a, 0x106, 0x10e]);
}

#[test]
fn frequency_latch_commits_upper_bits_only_after_lower_write() {
    let mut registers = OpnaRegisters::new();
    registers.reset();
    registers.write(0xa4, 0x12);
    assert_eq!(registers.read(0xa4), 0);
    registers.write(0xa0, 0x34);
    assert_eq!(registers.read(0xa0), 0x34);
    assert_eq!(registers.read(0xa4), 0x12 & 0x3f);
}

#[test]
fn keyon_write_selects_bank_channel_and_operator_mask() {
    let mut registers = OpnaRegisters::new();
    assert_eq!(registers.write(0x28, 0xb6), Some((5, 0x0b)));
    assert_eq!(registers.write(0x28, 0x03), None);
}

fn configured_channel() -> FmChannel {
    let phases = [0x0ff, 0x155, 0x2aa, 0x3c0];
    let mut channel = FmChannel::new();
    for (operator, phase) in phases.into_iter().enumerate() {
        let operator = channel.operator_mut(operator);
        operator.set_phase_raw(phase << 10);
        operator.set_volume_state(0, 0, false, false, 0);
    }
    channel
}

#[test]
fn algorithm_encoding_matches_ymfm() {
    assert_eq!(ALGORITHM_OPS, [0x035, 0x03a, 0x064, 0x071, 0x131, 0x313, 0x301, 0x380]);
}

#[test]
fn algorithms_and_feedback_match_cpp_vectors() {
    let expected = [
        [-1828, 586, -3756, 1803, 4113, -1532, -1412, 2534],
        [-1828, 586, -3756, 1803, 4113, -1532, -1412, 2534],
        [-3100, -3666, -2642, 736, 4521, -1171, -1004, 2458],
    ];

    for (feedback_index, feedback_level) in [0u8, 3, 6].into_iter().enumerate() {
        for (algorithm, expected_value) in expected[feedback_index].into_iter().enumerate() {
            let mut channel = configured_channel();
            channel.set_feedback_level(feedback_level);
            channel.set_feedback_state(1200, -700, 333);
            channel.set_algorithm(algorithm as u8);
            assert_eq!(channel.render(0, 1, 32767)[0], expected_value);
        }
    }
}

#[test]
fn channel_pan_is_applied_without_changing_the_mono_result() {
    let mut channel = configured_channel();
    channel.set_algorithm(7);
    channel.set_pan(true, false);
    assert_eq!(channel.render(0, 1, 32767), [2534, 0]);

    channel.set_pan(false, true);
    assert_eq!(channel.render(0, 1, 32767), [0, 2534]);

    channel.set_pan(false, false);
    assert_eq!(channel.render(0, 1, 32767), [0, 0]);
}

#[test]
fn frequency_latch_stores_both_bytes_when_the_low_byte_arrives() {
    let mut registers = OpnaRegisters::new();
    registers.write(0xa4, 0xd2);
    assert_eq!(registers.read(0xa4), 0);
    registers.write(0xa0, 0x34);
    assert_eq!(registers.read(0xa0), 0x34);
    assert_eq!(registers.read(0xa4), 0x12);
    registers.write(0x40, 0x7f);
    assert_eq!(registers.read(0x40), 0x7f);
}
