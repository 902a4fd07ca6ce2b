use pmd_core::pmd::channel::{ChannelKind, ChannelState, SequencerGlobals};
use pmd_core::pmd::effects::{
    advance_envelope, advance_voice, calculate_gate, fm_effective_pitch, frame, key_off, shifted_note, start_note,
    start_portamento,
};

#[test]
fn fm_and_ssg_note_tables_and_shift_match_pmd_integer_rules() {
    let mut fm = ChannelState::new(ChannelKind::Fm);
    let mut globals = SequencerGlobals::new();
    start_note(&mut fm, &mut globals, 0x21);
    assert_eq!(fm.fnum, 0x128f);
    assert_eq!(shifted_note(0x01, -2), 0x0b);
    assert_eq!(shifted_note(0x76, 2), 0x78);

    let mut ssg = ChannelState::new(ChannelKind::Ssg);
    start_note(&mut ssg, &mut globals, 0x21);
    assert_eq!(ssg.fnum, 0x0385);
}

#[test]
fn pcm_note_tables_preserve_pmd_octave_clamping_and_packed_p86_values() {
    let mut globals = SequencerGlobals::new();

    let mut adpcm = ChannelState::new(ChannelKind::Adpcm);
    start_note(&mut adpcm, &mut globals, 0x21);
    assert_eq!(adpcm.onkai, 0x21);
    assert_eq!(adpcm.fnum, 0x0d08);
    start_note(&mut adpcm, &mut globals, 0x61);
    assert_eq!(adpcm.onkai, 0x61);
    assert_eq!(adpcm.fnum, 0xd080);

    let mut ppz = ChannelState::new(ChannelKind::Ppz8);
    start_note(&mut ppz, &mut globals, 0x41);
    assert_eq!(ppz.fnum, 0x87a6);

    let mut p86 = ChannelState::new(ChannelKind::P86);
    start_note(&mut p86, &mut globals, 0x21);
    assert_eq!(p86.onkai, 0x21);
    assert_eq!(p86.p86_fnum, 0xff00b504);
    p86.detune = 1;
    let packed = frame(&p86, 1).p86_pitch;
    assert_eq!(packed & 0x001f_ffff, 0x00b520);
}

#[test]
fn q_gate_uses_q_q_percent_and_minimum_in_the_cpp_order() {
    let mut channel = ChannelState::new(ChannelKind::Fm);
    let mut globals = SequencerGlobals::new();
    channel.qdata = 3;
    channel.qdatb = 128;
    channel.qdat2 = 4;
    calculate_gate(&mut channel, &mut globals, 10);
    assert_eq!(channel.qdat, 6);

    channel.qdat3 = 0x80 | 1;
    calculate_gate(&mut channel, &mut globals, 2);
    assert_eq!(channel.qdat, 0);
}

#[test]
fn fm_pitch_normalizes_the_cpp_octave_boundary() {
    let mut channel = ChannelState::new(ChannelKind::Fm);
    channel.fnum = 0x2adf;
    channel.porta_num = 0x250 - (channel.fnum & 0x7ff);
    assert_eq!(fm_effective_pitch(&channel, 0), 0x24ba);
}

#[test]
fn triangular_lfo_and_portamento_frames_are_integer_steps() {
    let mut channel = ChannelState::new(ChannelKind::Fm);
    let mut globals = SequencerGlobals::new();
    channel.fnum = 100;
    channel.lfoswi = 1;
    channel.secondary_speed = 1;
    channel.speed = 1;
    channel.step = 2;
    channel.secondary_step = 2;
    channel.time = 2;
    channel.secondary_time = 2;
    channel.mdspd = 1;
    channel.mdspd2 = 1;
    channel.mdc = 0;
    channel.mdc2 = 0;
    start_note(&mut channel, &mut globals, 0x21);
    let first = frame(&channel, 3);
    assert_eq!(first.pitch_lfo, 0);
    advance_voice(&mut channel, &mut globals);
    assert_eq!(frame(&channel, 3).pitch_lfo, 2);
    advance_voice(&mut channel, &mut globals);
    assert_eq!(first.remaining, 3);
    assert_eq!(frame(&channel, 3).pitch_lfo, 4);
    assert_eq!(frame(&channel, 3).pitch, channel.fnum + 4);
    assert_eq!(first.remaining, 3);
    channel.porta_num2 = 3;
    channel.porta_num3 = 1;
    channel.lfoswi = 8;
    advance_voice(&mut channel, &mut globals);
    assert_eq!(channel.porta_num, 4);
    let second = frame(&channel, 2);
    assert_eq!(second.portamento, 4);
}

#[test]
fn normal_envelope_attack_decay_and_release_follow_state_numbers() {
    let mut channel = ChannelState::new(ChannelKind::Ssg);
    channel.env_arc = 2;
    channel.env_dr = 4;
    channel.env_src = 1;
    channel.env_rrc = 1;
    channel.env_ar = 2;
    channel.env_sr = 1;
    channel.env_rr = 1;
    let mut globals = SequencerGlobals::new();
    start_note(&mut channel, &mut globals, 0x21);
    advance_envelope(&mut channel, &mut globals, 1);
    assert_eq!(channel.env_flag, 0);
    advance_envelope(&mut channel, &mut globals, 1);
    assert_eq!(channel.env_flag, 1);
    assert_eq!(channel.env_volume, 4);
    key_off(&mut channel);
    advance_envelope(&mut channel, &mut globals, 1);
    assert_eq!(channel.env_flag, 2);
    assert_eq!(channel.env_volume, 3);
}

#[test]
fn envelope_change_forces_the_cpp_volume_write() {
    let mut channel = ChannelState::new(ChannelKind::Ssg);
    let mut globals = SequencerGlobals::new();
    channel.env_flag = 2;
    channel.env_volume = -7;
    channel.env_rr = 1;
    channel.env_rrc = 1;

    let update = advance_voice(&mut channel, &mut globals);

    assert!(update.force_volume_write);
    assert_eq!(channel.env_volume, -8);
}

#[test]
fn portamento_spreads_the_fm_distance_over_its_length() {
    let mut channel = ChannelState::new(ChannelKind::Fm);
    let mut globals = SequencerGlobals::new();
    assert_eq!(start_portamento(&mut channel, &mut globals, 0x20, 0x30, 0), Err(()));
    start_portamento(&mut channel, &mut globals, 0x20, 0x30, 4).expect("positive length");
    assert_eq!(channel.fnum, 0x126a);
    assert_eq!(channel.porta_delta, 0x26a);
    assert_eq!(channel.porta_num2, 0x26a / 4);
    assert_eq!(channel.porta_num3, 0x26a % 4);
    assert_eq!(channel.lfoswi & 8, 8);
    assert!(channel.porta_enabled);
}

#[test]
fn rests_keep_the_note_silent_and_random_gates_advance_the_seed() {
    let mut channel = ChannelState::new(ChannelKind::Ssg);
    let mut globals = SequencerGlobals::new();
    start_note(&mut channel, &mut globals, 0x2f);
    assert_eq!(channel.onkai, 255);
    assert_eq!(channel.fnum, 0);
    channel.qdat3 = 3;
    calculate_gate(&mut channel, &mut globals, 8);
    assert_eq!(globals.random_seed, 3);
    assert_eq!(channel.qdat, 0);
}

#[test]
fn swapping_the_lfos_twice_restores_the_part() {
    let mut channel = ChannelState::new(ChannelKind::Fm);
    channel.lfoswi = 0x13;
    channel.extendmode = 0x25;
    channel.delay = 7;
    channel.secondary_delay = 9;
    let original = channel;
    channel.swap_lfo();
    assert_eq!(channel.delay, 9);
    assert_eq!(channel.lfoswi, 0x31);
    channel.swap_lfo();
    assert_eq!(channel, original);
}

#[test]
fn random_gate_parts_stay_within_their_maximum_and_envelopes_compose() {
    let mut globals = SequencerGlobals::new();
    for _ in 0..64 {
        let value = pmd_core::pmd::effects::next_random(&mut globals, 128);
        assert!((0..=128).contains(&value));
        assert!((0..=0x7fff).contains(&globals.random_seed));
    }
    let mut once = ChannelState::new(ChannelKind::Ssg);
    once.env_flag = 2;
    once.env_volume = 3;
    once.env_rr = 1;
    once.env_rrc = 1;
    let mut twice = once;
    let mut scratch = SequencerGlobals::new();
    let changed = advance_envelope(&mut once, &mut scratch, 2);
    let first = advance_envelope(&mut twice, &mut scratch, 1);
    let second = advance_envelope(&mut twice, &mut scratch, 1);
    assert_eq!(once, twice);
    assert_eq!(changed, first || second);
}
