use pmd_core::pmd::channel::ChannelKind;
use pmd_core::pmd::effects::VoiceFrame;
use pmd_core::pmd::stream::PartEvent;
use pmd_core::visual::{
    channel_snapshot_after_events, empty_channel_snapshots, event_voice_mask, visual_channel_index, visual_level,
    visual_pan, VisualChannelKind, CHANNEL_COUNT, NO_NOTE,
};

#[test]
fn channel_snapshots_cover_physical_and_dynamic_voice_rows() {
    let initial = empty_channel_snapshots();
    assert_eq!(initial.len(), CHANNEL_COUNT);
    assert_eq!(initial[0].kind, VisualChannelKind::Fm);
    assert_eq!(initial[6].kind, VisualChannelKind::Ssg);
    assert_eq!(initial[9].kind, VisualChannelKind::Adpcm);
    assert_eq!(initial[10].kind, VisualChannelKind::Rhythm);

    let after_note = channel_snapshot_after_events(
        initial,
        &[PartEvent::Note {
            part: 11,
            kind: ChannelKind::Fm,
            value: 0x42,
            length: 8,
            masked: false,
        }],
    );
    assert!(after_note[2].active);
    assert_eq!(after_note[2].note, 0x42);
    assert_eq!(after_note[2].voice_mask, 2);

    let after_end = channel_snapshot_after_events(
        after_note,
        &[PartEvent::Ended {
            part: 11,
            kind: ChannelKind::Fm,
        }],
    );
    assert!(!after_end[2].active);
    assert!(after_end[2].releasing);
    assert_eq!(after_end[2].voice_mask, 0);
}

fn quiet_frame() -> VoiceFrame {
    VoiceFrame {
        pitch: -5,
        fm_base_pitch: 0,
        pitch_enabled: false,
        p86_pitch: 0,
        pitch_lfo: 40_000,
        portamento: 0,
        detune: 0,
        volume: 200,
        base_volume: 0,
        volume_lfo: 0,
        lfo_data: 0,
        secondary_lfo_data: 0,
        envelope: -40_000,
        gate_length: 0,
        remaining: 70_000,
        psg_pattern: 0,
        slot_mask: 0x1f0,
        volume_mask: 0,
        secondary_volume_mask: 0,
        lfoswi: 0,
        sdelay_mask: 0,
        sdelay_counter: 0,
        carrier: 0,
        slot_tl: [0; 4],
        slot_detune: [0; 4],
        algorithm_feedback: 0,
        fmpan: 0x40,
        voice_number: 300,
        fm_volume_down: 0,
        ssg_volume_down: 0,
        force_volume_write: false,
        force_pitch_write: false,
        force_key_on: true,
        volume_write_allowed: true,
        envelope_mode: 0,
    }
}

#[test]
fn frame_events_clamp_every_display_field() {
    let rows = channel_snapshot_after_events(
        empty_channel_snapshots(),
        &[PartEvent::Frame { part: 1, kind: ChannelKind::Fm, state: quiet_frame() }],
    );
    let row = rows[1];
    assert!(row.active);
    assert_eq!(row.level, 254);
    assert_eq!(row.pitch, 0);
    assert_eq!(row.lfo, i16::MAX);
    assert_eq!(row.envelope, i16::MIN);
    assert_eq!(row.remaining, u16::MAX);
    assert_eq!(row.operator_mask, 255);
    assert_eq!(row.voice, 255);
    assert_eq!(row.pan, 0);
    assert_eq!(row.voice_mask, 1);
    assert_eq!(row.trigger, 1);
}

#[test]
fn rhythm_events_and_parts_without_rows() {
    let rows = channel_snapshot_after_events(
        empty_channel_snapshots(),
        &[
            PartEvent::Rhythm { part: 10, mask: 0b1011, length: 4 },
            PartEvent::KeyOff { part: 30, kind: ChannelKind::Ssg },
        ],
    );
    assert_eq!(rows[10].level, 96);
    assert_eq!(rows[10].note, NO_NOTE);
    assert_eq!(rows[10].voice_mask, 0b1011);
    assert_eq!(rows[10].remaining, 4);
    assert_eq!(rows, channel_snapshot_after_events(rows, &[PartEvent::KeyOff { part: 22, kind: ChannelKind::Fm }]));

    let full = channel_snapshot_after_events(
        empty_channel_snapshots(),
        &[PartEvent::Rhythm { part: 10, mask: 0xffff, length: 1 }],
    );
    assert_eq!(full[10].level, 255);
}

#[test]
fn display_helpers_map_parts_levels_and_pans() {
    assert_eq!(visual_channel_index(3), Some(3));
    assert_eq!(visual_channel_index(12), Some(2));
    assert_eq!(visual_channel_index(20), Some(9));
    assert_eq!(visual_channel_index(22), None);
    assert_eq!(visual_level(ChannelKind::Ssg, 15), 255);
    assert_eq!(visual_level(ChannelKind::Ssg, -3), 0);
    assert_eq!(visual_level(ChannelKind::Ppz8, 300), 255);
    assert_eq!(visual_pan(ChannelKind::Fm, 0x80), 255);
    assert_eq!(visual_pan(ChannelKind::Fm, 0xc0), 128);
    assert_eq!(visual_pan(ChannelKind::Ssg, 0x40), 128);
    assert_eq!(event_voice_mask(14), 16);
    assert_eq!(event_voice_mask(0), 1);
}

#[test]
fn events_applied_in_two_batches_match_one_batch() {
    let events = [
        PartEvent::Note { part: 1, kind: ChannelKind::Fm, value: 0x30, length: 4, masked: false },
        PartEvent::KeyOff { part: 1, kind: ChannelKind::Fm },
        PartEvent::Rhythm { part: 10, mask: 3, length: 2 },
        PartEvent::Ended { part: 12, kind: ChannelKind::Fm },
    ];
    let at_once = channel_snapshot_after_events(empty_channel_snapshots(), &events);
    let first = channel_snapshot_after_events(empty_channel_snapshots(), &events[..2]);
    let in_two = channel_snapshot_after_events(first, &events[2..]);
    assert_eq!(at_once, in_two);
}
