use pmd_core::pmd::channel::{ChannelKind, CommandState, EffectRequest, RegisterWrite};
use pmd_core::pmd::commands::{
    carrier_for_algorithm, dispatch, CommandError, CommandOutcome, PartCursor,
};

fn execute(bytes: &mut [u8], kind: ChannelKind) -> (CommandOutcome, CommandState) {
    let mut cursor = PartCursor::new(bytes);
    let mut state = CommandState::new(kind);
    let outcome = dispatch(&mut cursor, &mut state).expect("synthetic command is valid");
    (outcome, state)
}

#[test]
fn cursor_reads_little_endian_signed_operands_and_rejects_truncation() {
    let mut bytes = [0x34, 0x12, 0xfe];
    let mut cursor = PartCursor::new(&mut bytes);
    assert_eq!(cursor.read_u16_le(), Ok(0x1234));
    assert_eq!(cursor.read_i8(), Ok(-2));
    assert_eq!(
        cursor.read_u8(),
        Err(CommandError::Truncated {
            position: 3,
            needed: 1
        })
    );
    assert_eq!(cursor.len(), 3);
}

#[test]
fn fm_commands_update_state_and_keep_raw_register_effects() {
    let mut bytes = [
        0xfd, 100, 0xf4, 0xfa, 0x34, 0x12, 0xf2, 2, 3, 0xfe, 0xef, 0x22, 0xa5,
    ];
    let (outcome, state) = execute(&mut bytes, ChannelKind::Fm);
    assert_eq!(
        outcome,
        CommandOutcome::Executed {
            opcode: 0xfd,
            start: 0,
            end: 2
        }
    );
    assert_eq!(state.channel.volume, 100);

    let mut bytes = [0xf2, 2, 3, 0xfe, 0xef, 0x22, 0xa5];
    let (outcome, mut state) = execute(&mut bytes, ChannelKind::Fm);
    assert_eq!(
        outcome,
        CommandOutcome::Executed {
            opcode: 0xf2,
            start: 0,
            end: 5
        }
    );
    let mut cursor = PartCursor::new(&mut bytes[4..]);
    let _ = dispatch(&mut cursor, &mut state).expect("raw register command");
    assert_eq!(
        state.writes,
        [RegisterWrite {
            address: 0x22,
            value: 0xa5
        }]
    );
}

#[test]
fn volume_steps_preserve_cpp_ssg_limits_and_pcm_stride() {
    let mut ssg_state = CommandState::new(ChannelKind::Ssg);
    let mut set_ssg = [0xfd, 16];
    dispatch(&mut PartCursor::new(&mut set_ssg), &mut ssg_state).expect("SSG volume set");
    let mut up_ssg = [0xf4];
    dispatch(&mut PartCursor::new(&mut up_ssg), &mut ssg_state).expect("SSG volume up");
    assert_eq!(ssg_state.channel.volume, 16);
    let mut down_ssg = [0xf3];
    dispatch(&mut PartCursor::new(&mut down_ssg), &mut ssg_state).expect("SSG volume down");
    assert_eq!(ssg_state.channel.volume, 15);

    let mut adpcm_state = CommandState::new(ChannelKind::Adpcm);
    let mut set_adpcm = [0xfd, 128];
    dispatch(&mut PartCursor::new(&mut set_adpcm), &mut adpcm_state).expect("ADPCM volume set");
    let mut up_adpcm = [0xf4];
    dispatch(&mut PartCursor::new(&mut up_adpcm), &mut adpcm_state).expect("ADPCM volume up");
    assert_eq!(adpcm_state.channel.volume, 144);
    let mut down_adpcm = [0xf3];
    dispatch(&mut PartCursor::new(&mut down_adpcm), &mut adpcm_state)
        .expect("ADPCM volume down");
    assert_eq!(adpcm_state.channel.volume, 128);
}

#[test]
fn regular_lfo_consumes_four_parameters_like_reference_driver() {
    let mut bytes = [0xf2, 2, 3, 0xfe, 0x81, 0xef, 0x22, 0xa5];
    let (outcome, state) = execute(&mut bytes, ChannelKind::Fm);
    assert_eq!(
        outcome,
        CommandOutcome::Executed {
            opcode: 0xf2,
            start: 0,
            end: 5,
        }
    );
    assert_eq!(state.channel.delay, 2);
    assert_eq!(state.channel.secondary_delay, 2);
    assert_eq!(state.channel.speed, 4);
    assert_eq!(state.channel.secondary_speed, 3);
    assert_eq!(state.channel.step, -2);
    assert_eq!(state.channel.secondary_step, -2);
    assert_eq!(state.channel.time, 0x81);
    assert_eq!(state.channel.secondary_time, 0x81);
}

#[test]
fn tempo_command_uses_the_existing_integer_tempo_conversion() {
    let mut bytes = [0xfc, 0xff, 80];
    let (_, state) = execute(&mut bytes, ChannelKind::Fm);
    assert_eq!(state.globals.tempo.quarter(), 80);

    let mut bytes = [0xfc, 0xfe, 0xfb];
    let (_, state) = execute(&mut bytes, ChannelKind::Fm);
    assert_eq!(state.globals.tempo.timer_b(), 195);
}

#[test]
fn rhythm_master_volume_applies_cpp_volume_down_at_write_time() {
    let mut bytes = [0xe8, 60];
    let mut cursor = PartCursor::new(&mut bytes);
    let mut state = CommandState::new(ChannelKind::Rhythm);
    state.globals.rhythm_volume_down = 10;
    dispatch(&mut cursor, &mut state).expect("valid rhythm volume command");
    assert_eq!(state.globals.rhythm_volume, 60);
    assert_eq!(state.writes[0].address, 0x11);
    assert_eq!(state.writes[0].value, 57);
}

#[test]
fn loop_start_marks_the_original_pointer_and_unknown_rewinds_as_cpp_does() {
    let mut bytes = [0xf9, 2, 0, 0xaa];
    let (outcome, _) = execute(&mut bytes, ChannelKind::Fm);
    assert_eq!(
        outcome,
        CommandOutcome::Executed {
            opcode: 0xf9,
            start: 0,
            end: 3
        }
    );
    assert_eq!(bytes, [0xf9, 2, 0, 0]);

    let mut bytes = [0xa0];
    let (outcome, _) = execute(&mut bytes, ChannelKind::Fm);
    assert_eq!(
        outcome,
        CommandOutcome::UnknownTerminated {
            opcode: 0xa0,
            position: 0
        }
    );
    assert_eq!(bytes[0], 0x80);
}

#[test]
fn command_profiles_preserve_the_documented_operand_lengths() {
    let mut bytes = [0xf2, 0, 0, 0, 0, 0, 0, 0, 0];
    let (outcome, _) = execute(&mut bytes, ChannelKind::Rhythm);
    assert_eq!(
        outcome,
        CommandOutcome::Executed {
            opcode: 0xf2,
            start: 0,
            end: 5
        }
    );

    let mut bytes = [0xda, 0x42];
    let (outcome, _) = execute(&mut bytes, ChannelKind::P86);
    assert_eq!(
        outcome,
        CommandOutcome::Executed {
            opcode: 0xda,
            start: 0,
            end: 2
        }
    );

    let mut bytes = [0xef, 0x10, 0x7f];
    let (_, state) = execute(&mut bytes, ChannelKind::Adpcm);
    assert_eq!(
        state.writes,
        [RegisterWrite {
            address: 0x110,
            value: 0x7f
        }]
    );
}

#[test]
fn end_of_part_and_truncation_are_reported() {
    let mut bytes = [0x80, 0xfd];
    let (outcome, _) = execute(&mut bytes, ChannelKind::Ssg);
    assert_eq!(outcome, CommandOutcome::EndOfPart { position: 0 });

    let mut bytes = [0xfd];
    let mut state = CommandState::new(ChannelKind::Fm);
    assert_eq!(
        dispatch(&mut PartCursor::new(&mut bytes), &mut state),
        Err(CommandError::Truncated { position: 1, needed: 1 })
    );
    let mut empty: [u8; 0] = [];
    assert_eq!(
        dispatch(&mut PartCursor::new(&mut empty), &mut state),
        Err(CommandError::Truncated { position: 0, needed: 1 })
    );
}

#[test]
fn rhythm_voice_commands_check_their_voice_numbers() {
    let mut bytes = [0xea, 0x1f];
    let mut state = CommandState::new(ChannelKind::Rhythm);
    assert_eq!(
        dispatch(&mut PartCursor::new(&mut bytes), &mut state),
        Err(CommandError::InvalidOperand { opcode: 0xea, value: 0x1f })
    );
    let mut bytes = [0xea, 0x25];
    dispatch(&mut PartCursor::new(&mut bytes), &mut state).expect("voice one volume");
    assert_eq!(state.globals.rhythm_data[0], 0xc5);
    assert_eq!(state.writes, [RegisterWrite { address: 0x18, value: 0xc5 }]);
}

#[test]
fn portamento_rejects_a_zero_length() {
    let mut bytes = [0xda, 60, 64, 0];
    let mut state = CommandState::new(ChannelKind::Fm);
    assert_eq!(
        dispatch(&mut PartCursor::new(&mut bytes), &mut state),
        Err(CommandError::InvalidOperand { opcode: 0xda, value: 0 })
    );
    let mut bytes = [0xda, 60, 64, 8, 0xc1];
    let (outcome, state) = execute(&mut bytes, ChannelKind::Ppz8);
    assert_eq!(outcome, CommandOutcome::Executed { opcode: 0xda, start: 0, end: 5 });
    assert_eq!(state.channel.porta_delta, 0);
    assert!(state.channel.porta_enabled);
}

#[test]
fn slot_mask_feedback_and_total_level_follow_the_fm3_rules() {
    let mut bytes = [0xcf, 0x30];
    let (_, state) = execute(&mut bytes, ChannelKind::Fm);
    assert_eq!(state.channel.slot_mask, 0x30);
    assert_eq!(state.channel.voice_mask, 0xaa);

    let mut bytes = [0xb6, 0x05];
    let (_, state) = execute(&mut bytes, ChannelKind::Fm);
    assert_eq!(state.writes, [RegisterWrite { address: 0xb0, value: 0x28 }]);

    let mut bytes = [0xb8, 0x03, 0x90];
    let (_, state) = execute(&mut bytes, ChannelKind::Fm);
    assert_eq!(
        state.writes,
        [RegisterWrite { address: 0x40, value: 0x10 }, RegisterWrite { address: 0x48, value: 0x10 }]
    );
    assert_eq!(carrier_for_algorithm(4), 0xa0);
    assert_eq!(carrier_for_algorithm(9), 0xf0);
    assert_eq!(carrier_for_algorithm(-1), 0x80);
}

#[test]
fn sound_effect_command_queues_a_request_when_the_part_plays() {
    let mut bytes = [0xd4, 0x85];
    let (_, state) = execute(&mut bytes, ChannelKind::Ssg);
    assert_eq!(state.effect_requests, [EffectRequest::Start { index: 5, correction: 1 }]);
    let mut bytes = [0xd3, 0x85];
    let (_, state) = execute(&mut bytes, ChannelKind::Ssg);
    assert!(state.effect_requests.is_empty());
    assert_eq!(state.channel.effect_value, 0x85);
}

#[test]
fn special_part_mask_changes_shared_volume_downs() {
    let mut bytes = [0xc0, 0xff, 0x20];
    let (outcome, state) = execute(&mut bytes, ChannelKind::Fm);
    assert_eq!(outcome, CommandOutcome::Executed { opcode: 0xc0, start: 0, end: 3 });
    assert_eq!(state.globals.fm_volume_down, 0x20);
    let mut bytes = [0xc0, 0x10, 0x20];
    let (outcome, _) = execute(&mut bytes, ChannelKind::Fm);
    assert_eq!(outcome, CommandOutcome::Executed { opcode: 0xc0, start: 0, end: 2 });
    assert_eq!(bytes, [0xc0, 0x10, 0x80]);
}
