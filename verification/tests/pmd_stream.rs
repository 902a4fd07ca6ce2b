use pmd_core::pmd::channel::{ChannelKind, RegisterWrite};
use pmd_core::pmd::stream::{PartEvent, SongRunner, StreamError};
use pmd_core::pmd::{CompanionNames, MainFormat, MainLayout, ParsedSong};
use pmd_core::Metadata;

fn song_with_stream(stream: &[u8]) -> ParsedSong {
    let mut main = vec![0; 1 + 0x1a + stream.len()];
    main[1..3].copy_from_slice(&[0x1a, 0]);
    main[1 + 0x1a..].copy_from_slice(stream);
    ParsedSong {
        main,
        flags: 0,
        format: MainFormat::V1a,
        layout: Some(MainLayout {
            part_offsets: [0x1a, 0, 0, 0, 0, 0, 0, 0, 0, 0, 0],
            rhythm_table_offset: 0,
            program_area_offset: 0,
        }),
        metadata: Metadata::default(),
        companions: CompanionNames::default(),
    }
}

fn event_kind(event: &PartEvent) -> ChannelKind {
    match event {
        PartEvent::Note { kind, .. } | PartEvent::Portamento { kind, .. } | PartEvent::Ended { kind, .. } => *kind,
        PartEvent::Rhythm { .. } => ChannelKind::Rhythm,
        PartEvent::KeyOff { kind, .. } | PartEvent::Frame { kind, .. } => *kind,
    }
}

#[test]
fn note_length_is_decremented_before_the_next_note_is_read() {
    let song = song_with_stream(&[0x21, 2, 0x22, 1, 0x80]);
    let mut runner = SongRunner::from_song(&song).expect("valid synthetic layout").expect("layout exists");
    let mut events = Vec::new();

    let first = runner.tick(&mut events).expect("first tick");
    assert!(!first.ended);
    assert_eq!(events[0], PartEvent::Note { part: 0, kind: ChannelKind::Fm, value: 0x21, length: 2, masked: false });
    events.clear();
    let second = runner.tick(&mut events).expect("holding tick");
    assert!(!second.ended);
    assert!(matches!(events[0], PartEvent::Frame { .. }));
    let third = runner.tick(&mut events).expect("next note tick");
    assert!(!third.ended);
    assert_eq!(event_kind(&events[0]), ChannelKind::Fm);
}

#[test]
fn first_tick_does_not_rewrite_the_default_timer_b() {
    let song = song_with_stream(&[0x21, 1, 0x80]);
    let mut runner = SongRunner::from_song(&song).expect("valid synthetic layout").expect("layout exists");
    let mut events = Vec::new();
    runner.tick(&mut events).expect("first tick");

    let mut writes = Vec::new();
    runner.take_writes(&mut writes);
    assert!(!writes.iter().any(|write| write.address == 0x26));
    assert_eq!(writes.last(), Some(&RegisterWrite { address: 0x27, value: 0x3f }));
}

#[test]
fn q_gate_emits_keyoff_before_the_note_stream_expires() {
    let song = song_with_stream(&[0xfe, 5, 0x21, 4, 0x80]);
    let mut runner = SongRunner::from_song(&song).expect("valid synthetic layout").expect("layout exists");
    let mut events = Vec::new();

    runner.tick(&mut events).expect("note tick");
    assert_eq!(events.len(), 2);
    assert!(matches!(events[0], PartEvent::Note { .. }));
    assert!(matches!(events[1], PartEvent::Frame { state, .. } if state.gate_length == 5));
    runner.tick(&mut events).expect("gate keyoff tick");
    assert!(matches!(events[0], PartEvent::KeyOff { .. }));
    assert!(matches!(events[1], PartEvent::Frame { .. }));
}

#[test]
fn portamento_frame_reaches_the_target_by_integer_steps() {
    let song = song_with_stream(&[0xda, 0x21, 0x31, 2, 0x80]);
    let mut runner = SongRunner::from_song(&song).expect("valid synthetic layout").expect("layout exists");
    let mut events = Vec::new();

    runner.tick(&mut events).expect("portamento start");
    assert!(matches!(events[0], PartEvent::Portamento { length: 2, .. }));
    let first_pitch = match events[1] {
        PartEvent::Frame { state, .. } => state.pitch,
        _ => panic!("missing initial portamento frame: {events:?}"),
    };
    runner.tick(&mut events).expect("portamento step");
    let second_pitch = match events[0] {
        PartEvent::Frame { state, .. } => state.pitch,
        _ => panic!("missing stepped portamento frame: {events:?}"),
    };
    assert_eq!(first_pitch, 0x128f);

    assert_eq!(second_pitch, 0x13c4);
}

#[test]
fn part_loop_jumps_to_f6_and_optional_loop_limit_eventually_ends() {
    let song = song_with_stream(&[0xf6, 0x21, 1, 0x80]);
    let mut runner = SongRunner::from_song(&song).expect("valid synthetic layout").expect("layout exists");
    runner.set_loop_count(Some(1));
    let mut events = Vec::new();

    let first = runner.tick(&mut events).expect("first note");
    assert!(!first.ended);
    assert!(!first.looped);
    let second = runner.tick(&mut events).expect("one loop");
    assert!(second.looped);
    assert!(!second.ended);
    let third = runner.tick(&mut events).expect("end after limited loop");
    assert!(third.ended);
    assert!(events.iter().any(|event| matches!(event, PartEvent::Ended { .. })));
}

#[test]
fn command_jump_resumes_note_scanning_at_the_target() {
    let song = song_with_stream(&[0xf7, 0x1e, 0, 0, 2, 1, 0, 0, 0x21, 1, 0x80]);
    let mut runner = SongRunner::from_song(&song).expect("valid synthetic layout").expect("layout exists");
    let mut events = Vec::new();
    runner.tick(&mut events).expect("jump to note");
    assert_eq!(events[0], PartEvent::Note { part: 0, kind: ChannelKind::Fm, value: 0x21, length: 1, masked: false });
}

#[test]
fn fm3_and_ppz_external_parts_activate_in_mmain_order_and_reset_cleanly() {
    let mut main = vec![0u8; 1 + 0x40];
    main[1..3].copy_from_slice(&[0x1a, 0]);

    let fm3 = [0xc6, 0x30, 0, 0, 0, 0, 0, 0x80];
    main[1 + 0x1a..1 + 0x1a + fm3.len()].copy_from_slice(&fm3);
    main[1 + 0x30..1 + 0x33].copy_from_slice(&[0x21, 1, 0x80]);
    let mut layout = MainLayout { part_offsets: [0; 11], rhythm_table_offset: 0, program_area_offset: 0 };
    layout.part_offsets[2] = 0x1a;
    let song = ParsedSong {
        main,
        flags: 0,
        format: MainFormat::V1a,
        layout: Some(layout),
        metadata: Metadata::default(),
        companions: CompanionNames::default(),
    };
    let mut runner = SongRunner::from_song(&song).expect("valid synthetic layout").expect("layout exists");
    let mut events = Vec::new();
    runner.tick(&mut events).expect("FM3 extension activation");
    assert!(events
        .iter()
        .any(|event| matches!(event, PartEvent::Note { part: 11, kind: ChannelKind::Fm, masked: true, .. })));
    assert!(runner.position(11).is_some());
    runner.reset();
    assert!(runner.position(11).is_none());

    let mut main = vec![0u8; 1 + 0x40];
    main[1..3].copy_from_slice(&[0x1a, 0]);

    main[1 + 0x1a] = 0xb4;
    main[1 + 0x1a + 1..1 + 0x1a + 3].copy_from_slice(&[0x30, 0]);
    main[1 + 0x1a + 0x11] = 0x80;
    main[1 + 0x30..1 + 0x33].copy_from_slice(&[0x21, 1, 0x80]);
    let mut layout = MainLayout { part_offsets: [0; 11], rhythm_table_offset: 0, program_area_offset: 0 };
    layout.part_offsets[9] = 0x1a;
    let song = ParsedSong {
        main,
        flags: 0,
        format: MainFormat::V1a,
        layout: Some(layout),
        metadata: Metadata::default(),
        companions: CompanionNames::default(),
    };
    let mut runner = SongRunner::from_song(&song).expect("valid synthetic layout").expect("layout exists");
    runner.tick(&mut events).expect("PPZ activation");
    assert!(events
        .iter()
        .any(|event| matches!(event, PartEvent::Note { part: 14, kind: ChannelKind::Ppz8, masked: false, .. })));
}

#[test]
fn rhythm_part_uses_the_radtbl_indirection_and_subsequence_length() {
    let mut main = vec![0; 1 + 0x30];
    main[1..3].copy_from_slice(&[0x1a, 0]);
    main[1 + 0x14..1 + 0x16].copy_from_slice(&0x1c_u16.to_le_bytes());
    main[1 + 0x16..1 + 0x18].copy_from_slice(&0x20_u16.to_le_bytes());
    main[1 + 0x1a] = 0x80;
    main[1 + 0x1c] = 0;
    main[1 + 0x1d] = 0x80;
    main[1 + 0x20..1 + 0x22].copy_from_slice(&0x24_u16.to_le_bytes());
    main[1 + 0x24..1 + 0x27].copy_from_slice(&[0, 3, 0xff]);
    let song = ParsedSong {
        main,
        flags: 0,
        format: MainFormat::V1a,
        layout: Some(MainLayout {
            part_offsets: [0x1a, 0, 0, 0, 0, 0, 0, 0, 0, 0, 0x1c],
            rhythm_table_offset: 0x20,
            program_area_offset: 0,
        }),
        metadata: Metadata::default(),
        companions: CompanionNames::default(),
    };
    let mut runner = SongRunner::from_song(&song).expect("valid synthetic layout").expect("layout exists");
    let mut events = Vec::new();
    let tick = runner.tick(&mut events).expect("rhythm entry");
    assert!(!tick.ended);
    assert_eq!(events, [PartEvent::Rhythm { part: 10, mask: 0, length: 3 }]);
    runner.tick(&mut events).expect("rhythm hold");
    runner.tick(&mut events).expect("rhythm hold");
    let end = runner.tick(&mut events).expect("return to mml end");
    assert!(end.ended);
    assert!(events.iter().any(|event| matches!(event, PartEvent::Ended { part: 10, .. })));
}

#[test]
fn malformed_offsets_and_command_only_cycles_are_reported_without_hanging() {
    let mut song = song_with_stream(&[0x81]);
    song.layout.as_mut().expect("layout").part_offsets[10] = 0xfff0;
    assert_eq!(SongRunner::from_song(&song), Err(StreamError::InvalidPartOffset { part: 10, offset: 0xfff0 }));

    let song = song_with_stream(&[0xf6, 0x80]);
    let mut runner = SongRunner::from_song(&song).expect("valid synthetic layout").expect("layout exists");
    let mut events = Vec::new();
    assert_eq!(runner.tick(&mut events), Err(StreamError::ActionBudgetExceeded { part: 0, position: 0x1b }));
}

#[test]
fn song_without_layout_has_no_runner_and_empty_main_is_truncated() {
    let mut song = song_with_stream(&[0x80]);
    song.layout = None;
    assert_eq!(SongRunner::from_song(&song), Ok(None));

    let mut song = song_with_stream(&[0x80]);
    song.main.clear();
    assert_eq!(SongRunner::from_song(&song), Err(StreamError::Truncated { part: 0, position: 0, needed: 1 }));
}

#[test]
fn part_starting_with_end_mark_is_not_played_and_song_is_ended() {
    let song = song_with_stream(&[0x80]);
    let mut runner = SongRunner::from_song(&song).expect("valid synthetic layout").expect("layout exists");
    assert!(runner.ended());
    assert!(runner.position(0).is_none());
    let mut events = Vec::new();
    let tick = runner.tick(&mut events).expect("ended tick");
    assert_eq!((tick.ended, tick.looped, tick.writes), (true, false, 0));
    assert!(events.is_empty());
}

#[test]
fn ssg_parts_run_before_fm_parts() {
    let mut main = vec![0u8; 1 + 0x30];
    main[1..3].copy_from_slice(&[0x1a, 0]);
    main[1 + 0x1a..1 + 0x1d].copy_from_slice(&[0x21, 1, 0x80]);
    main[1 + 0x20..1 + 0x23].copy_from_slice(&[0x21, 1, 0x80]);
    let mut layout = MainLayout { part_offsets: [0; 11], rhythm_table_offset: 0, program_area_offset: 0 };
    layout.part_offsets[0] = 0x1a;
    layout.part_offsets[6] = 0x20;
    let song = ParsedSong {
        main,
        flags: 0,
        format: MainFormat::V1a,
        layout: Some(layout),
        metadata: Metadata::default(),
        companions: CompanionNames::default(),
    };
    let mut runner = SongRunner::from_song(&song).expect("valid synthetic layout").expect("layout exists");
    let mut events = Vec::new();
    runner.tick(&mut events).expect("first tick");
    let notes: Vec<usize> = events
        .iter()
        .filter_map(|event| match event {
            PartEvent::Note { part, .. } => Some(*part),
            _ => None,
        })
        .collect();
    assert_eq!(notes, vec![6, 0]);
}
