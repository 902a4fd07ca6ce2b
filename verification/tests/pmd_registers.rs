use pmd_core::pmd::channel::{ChannelKind, ChannelState, RegisterWrite};
use pmd_core::pmd::effects::frame;
use pmd_core::pmd::registers::RegisterState;
use pmd_core::pmd::stream::PartEvent;

fn pairs(writes: &[RegisterWrite]) -> Vec<(u16, u8)> {
    writes.iter().map(|write| (write.address, write.value)).collect()
}

#[test]
fn fm_program_change_replays_silence_and_voice_record_in_cpp_order() {
    let program_offset = 0x20;
    let mut data = vec![0; program_offset + 26];
    data[program_offset..].copy_from_slice(&[
        3, 1, 2, 3, 4, 5, 6, 7, 8, 9, 10, 11, 12, 13, 14, 15, 16, 17, 18, 19, 20, 21, 22, 23, 24, 0x3d,
    ]);

    let mut channel = ChannelState::new(ChannelKind::Fm);
    channel.voice_number = 3;
    let mut state = RegisterState::new();
    let mut writes = Vec::new();
    state.program_change(0, &mut channel, &data, program_offset, None, &mut writes);

    let expected: Vec<(u16, u8)> = vec![
        (0x40, 0x7f),
        (0x80, 0x7f),
        (0x44, 0x7f),
        (0x84, 0x7f),
        (0x48, 0x7f),
        (0x88, 0x7f),
        (0x4c, 0x7f),
        (0x8c, 0x7f),
        (0x28, 0),
        (0xb0, 0x3d),
        (0x30, 1),
        (0x34, 2),
        (0x38, 3),
        (0x3c, 4),
        (0x40, 5),
        (0x50, 9),
        (0x54, 10),
        (0x58, 11),
        (0x5c, 12),
        (0x60, 13),
        (0x64, 14),
        (0x68, 15),
        (0x6c, 16),
        (0x70, 17),
        (0x74, 18),
        (0x78, 19),
        (0x7c, 20),
        (0x80, 21),
        (0x84, 22),
        (0x88, 23),
        (0x8c, 24),
    ];
    assert_eq!(pairs(&writes), expected);
}

#[test]
fn ssg_effect_start_and_sweep_match_d001() {
    let mut state = RegisterState::new();
    let mut writes = Vec::new();
    state.start_effect(1, 1, &mut writes);
    assert_eq!(
        pairs(&writes),
        vec![
            (0x04, 0x90),
            (0x05, 0x01),
            (0x06, 0x07),
            (0x07, 0x9b),
            (0x0a, 0x10),
            (0x0b, 0xb8),
            (0x0c, 0x0b),
            (0x0d, 0x00),
        ]
    );
    writes.clear();
    state.timer_a_tick(&mut writes);
    assert_eq!(pairs(&writes), vec![(0x04, 0xed), (0x05, 0x01)]);
}

#[test]
fn ssg_volume_down_precedes_envelope_and_rest_notes_write_volume() {
    let mut channel = ChannelState::new(ChannelKind::Ssg);
    channel.volume = 15;
    channel.env_flag = 2;
    channel.env_volume = -6;
    let mut voice = frame(&channel, 1);
    voice.ssg_volume_down = 28;
    let event = PartEvent::Frame { part: 7, kind: ChannelKind::Ssg, state: voice };

    let mut state = RegisterState::new();
    let mut writes = Vec::new();
    state.emit_frame(&event, Some(0x0f), voice, 0, 0x3f, &mut writes);

    assert_eq!(writes, vec![RegisterWrite { address: 0x09, value: 7 }]);
}

#[test]
fn ssg_clamps_normal_envelope_before_volume_lfo() {
    let mut channel = ChannelState::new(ChannelKind::Ssg);
    channel.volume = 15;
    channel.env_flag = 1;
    channel.env_volume = 3;
    channel.lfoswi = 2;
    channel.lfo_data = -1;
    let voice = frame(&channel, 1);
    let event = PartEvent::Frame { part: 7, kind: ChannelKind::Ssg, state: voice };

    let mut state = RegisterState::new();
    let mut writes = Vec::new();
    state.emit_frame(&event, Some(0x01), voice, 0, 0x3f, &mut writes);

    assert_eq!(
        writes,
        vec![RegisterWrite { address: 0x09, value: 14 }, RegisterWrite { address: 0x07, value: 0xbd }]
    );
}

#[test]
fn ssg_rest_with_stale_portamento_does_not_write_pitch() {
    let mut channel = ChannelState::new(ChannelKind::Ssg);
    channel.fnum = 0;
    channel.porta_num = 15;
    channel.onkai = 255;
    let voice = frame(&channel, 1);
    assert!(!voice.pitch_enabled);
    let event = PartEvent::Frame { part: 6, kind: ChannelKind::Ssg, state: voice };

    let mut state = RegisterState::new();
    let mut writes = Vec::new();
    state.emit_frame(&event, Some(0x0f), voice, 0, 0x3f, &mut writes);

    assert!(writes.is_empty());
}

#[test]
fn fm_frame_writes_carrier_level_pitch_and_key_on() {
    let channel = ChannelState::new(ChannelKind::Fm);
    let mut voice = frame(&channel, 1);
    voice.volume = 108;
    voice.fm_volume_down = 0;
    voice.slot_mask = 0xf0;
    voice.carrier = 0x80;
    voice.lfoswi = 0;
    voice.slot_tl = [0, 0, 0, 0x10];
    voice.pitch_enabled = true;
    voice.pitch = 0x1234;
    voice.sdelay_counter = 0;
    let event = PartEvent::Frame { part: 0, kind: ChannelKind::Fm, state: voice };

    let mut state = RegisterState::new();
    let mut writes = Vec::new();
    state.emit_frame(&event, Some(0x21), voice, 0, 0x3f, &mut writes);
    assert_eq!(pairs(&writes), vec![(0x4c, 35), (0xa4, 0x12), (0xa0, 0x34), (0x28, 0xf0)]);

    writes.clear();
    state.emit_key_off(&PartEvent::KeyOff { part: 0, kind: ChannelKind::Fm }, &mut writes);
    assert_eq!(pairs(&writes), vec![(0x28, 0x00)]);
}

#[test]
fn fm_key_off_on_second_bank_without_frame_clears_all_slots() {
    let mut state = RegisterState::new();
    let mut writes = Vec::new();
    state.emit_key_off(&PartEvent::KeyOff { part: 4, kind: ChannelKind::Fm }, &mut writes);
    assert_eq!(pairs(&writes), vec![(0x28, 0x05)]);
    state.emit_key_off(&PartEvent::KeyOff { part: 7, kind: ChannelKind::Ssg }, &mut writes);
    assert_eq!(writes.len(), 1);
}
