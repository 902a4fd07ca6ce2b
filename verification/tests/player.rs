use pmd_core::opna::renderer::ChipRenderer;
use pmd_core::opna::trace::RegisterWrite;
use pmd_core::player::{frame_delta, Player, OPNA_CLOCK_HZ};
use pmd_core::pmd::stream::SongTick;
use pmd_core::pmd::timing::timer_b_to_quarter;
use pmd_core::{Error, FileProvider, Metadata};

struct EmptyFiles;

impl FileProvider for EmptyFiles {
    fn get(&self, _name: &str) -> Option<&[u8]> {
        None
    }
}

struct OneFile {
    name: &'static str,
    bytes: Vec<u8>,
}

impl FileProvider for OneFile {
    fn get(&self, name: &str) -> Option<&[u8]> {
        if name == self.name {
            Some(self.bytes.as_slice())
        } else {
            None
        }
    }
}

fn song_with_pcm_memo() -> Vec<u8> {
    let mut main = vec![0u8; 0x100];
    main[..3].copy_from_slice(&[0, 0x1a, 0]);
    main[1 + 0x18..1 + 0x1a].copy_from_slice(&0x40u16.to_le_bytes());
    main[1 + 0x3c..1 + 0x3e].copy_from_slice(&0x50u16.to_le_bytes());
    main[1 + 0x3e] = 0x40;
    main[1 + 0x50..1 + 0x52].copy_from_slice(&0x70u16.to_le_bytes());
    main[1 + 0x70..1 + 0x79].copy_from_slice(b"bank.PPC\0");
    main
}

fn empty_ppc() -> Vec<u8> {
    let mut ppc = vec![0u8; 1056];
    ppc[..30].copy_from_slice(b"ADPCM DATA for  PMD ver.4.4-  ");
    ppc[30..32].copy_from_slice(&0x26u16.to_le_bytes());
    ppc
}

fn to_float(samples: &[i32]) -> Vec<f32> {
    samples.iter().map(|sample| *sample as f32 / 32_768.0).collect()
}

#[test]
fn public_player_boundary_owns_only_byte_provider_state() {
    let mut player = Player::new(44_100);
    let files = EmptyFiles;

    assert_eq!(player.metadata(), &Metadata::default());
    assert_eq!(player.position_samples(), 0);
    player.set_loop_count(Some(2));
    player.reset();
    assert_eq!(player.position_samples(), 0);
    assert_eq!(player.load(&[0], &files), Err(Error::TruncatedFile));
}

#[test]
fn channel_mute_state_is_checked_and_survives_reset() {
    let mut player = Player::new(44_100);
    assert_eq!(player.channel_muted(0), Some(false));
    assert!(player.set_channel_mute(0, true));
    assert_eq!(player.channel_muted(0), Some(true));
    assert!(!player.set_channel_mute(11, true));
    player.reset();
    assert_eq!(player.channel_muted(0), Some(true));
}

#[test]
fn load_rejects_invalid_input_before_parser_is_called() {
    let files = EmptyFiles;
    assert_eq!(Player::new(0).load(&[0], &files), Err(Error::InvalidSampleRate));
    assert_eq!(Player::new(44_100).load(&[], &files), Err(Error::EmptyMainFile));
}

#[test]
fn load_accepts_a_valid_header_before_playback_layout_is_needed() {
    let files = EmptyFiles;
    let mut player = Player::new(44_100);
    assert_eq!(player.load(&[0, 0x1a, 0], &files), Ok(()));
    assert_eq!(player.metadata(), &Metadata::default());
}

#[test]
fn render_is_stateful_across_frontend_chunks() {
    let files = EmptyFiles;
    let main = [0, 0x1a, 0];
    let mut contiguous = Player::new(44_100);
    contiguous.load(&main, &files).expect("header-only PMD loads");
    let mut expected = vec![0; 128];
    contiguous.render_pcm(&mut expected);

    let mut chunked = Player::new(44_100);
    chunked.load(&main, &files).expect("header-only PMD loads");
    let mut actual = vec![0; 128];
    chunked.render_pcm(&mut actual[..64]);
    chunked.render_pcm(&mut actual[64..]);

    assert_eq!(chunked.position_samples(), 64);
    assert_eq!(to_float(&actual), to_float(&expected));
    assert!(to_float(&actual).iter().all(|sample| sample.is_finite()));
}

#[test]
fn reused_render_block_does_not_accumulate_previous_pcm() {
    let mut player = Player::new(44_100);
    player.chip = Some(ChipRenderer::new(OPNA_CLOCK_HZ, 44_100, false).expect("valid renderer"));
    player.render_block = vec![[123, -321]; 2];

    player.render_output_block(1);

    assert_eq!(player.output_samples.pop_front(), Some([0, 0]));
}

#[test]
fn render_does_not_retain_a_full_song_sequencer_trace() {
    let files = EmptyFiles;
    let mut main = vec![0; 1 + 0x1a + 3];
    main[..3].copy_from_slice(&[0, 0x1a, 0]);
    main[1 + 0x1a..].copy_from_slice(&[0x21, 1, 0x80]);

    let mut player = Player::new(44_100);
    player.load(&main, &files).expect("synthetic PMD should load");
    let mut output = [0; 2 * 1024];
    player.render_pcm(&mut output);

    assert!(player.stream_trace.is_empty());
    assert!(player.stream_events.len() <= 2);
}

#[test]
fn scheduled_frames_floor_each_timer_interval() {
    let first = 15_956u64 * 44_100 / 1_000_000;
    let second = (18_462u64 - 15_956) * 44_100 / 1_000_000;
    assert_eq!(first, 703);
    assert_eq!(second, 110);
    assert_eq!(first + second, 813);
    assert_eq!(frame_delta(15_956, 0, 44_100), 703);
    assert_eq!(frame_delta(18_462, 15_956, 44_100), 110);
    assert_eq!(frame_delta(10, 20, 44_100), 0);
}

#[test]
fn load_copies_a_case_insensitive_companion_bank_from_the_provider() {
    let files = OneFile { name: "BANK.PPC", bytes: empty_ppc() };
    let mut player = Player::new(44_100);
    assert_eq!(player.load(&song_with_pcm_memo(), &files), Ok(()));
    assert_eq!(player.companion_banks.adpcm.as_ref().map(|bank| bank.data.len()), Some(0));
}

#[test]
fn load_reports_missing_and_malformed_named_companions() {
    let main = song_with_pcm_memo();
    assert_eq!(Player::new(44_100).load(&main, &EmptyFiles), Err(Error::MissingCompanion));
    let malformed = OneFile { name: "BANK.PPC", bytes: vec![0; 30] };
    assert_eq!(Player::new(44_100).load(&main, &malformed), Err(Error::InvalidCompanion));
}

#[test]
fn playback_status_counts_ticks_and_clears_on_reset() {
    let files = EmptyFiles;
    let mut main = vec![0; 1 + 0x1a + 3];
    main[..3].copy_from_slice(&[0, 0x1a, 0]);
    main[1 + 0x1a..].copy_from_slice(&[0x21, 1, 0x80]);

    let mut player = Player::new(44_100);
    let idle = player.playback_status();
    assert!(idle.ended, "an unloaded player reports no song");
    assert_eq!(idle.ticks, 0);
    assert_eq!(player.load(&main, &files), Ok(()));
    assert_eq!(player.playback_status().ticks, 0);

    for expected in 1..=3 {
        assert!(player.advance_tick().is_ok());
        assert_eq!(player.playback_status().ticks, expected);
    }
    let status = player.playback_status();
    assert_eq!(status.loops_completed, 0);
    assert_eq!(status.loop_limit, None);
    assert!(status.timer_b > 0, "a loaded song publishes its tempo");
    assert_eq!(status.tempo_quarter, timer_b_to_quarter(status.timer_b));

    player.reset();
    assert_eq!(player.playback_status().ticks, 0);
}

#[test]
fn load_wires_part_streams_and_reset_restarts_their_cursor() {
    let files = EmptyFiles;
    let mut main = vec![0; 1 + 0x1a + 3];
    main[..3].copy_from_slice(&[0, 0x1a, 0]);
    main[1 + 0x1a..].copy_from_slice(&[0x21, 1, 0x80]);

    let mut player = Player::new(44_100);
    assert_eq!(player.load(&main, &files), Ok(()));
    assert_eq!(player.advance_tick(), Ok(SongTick { ended: false, looped: false, writes: 4 }));
    assert_eq!(player.stream_events.len(), 2, "events: {:?}", player.stream_events);
    player.reset();
    assert_eq!(player.advance_tick(), Ok(SongTick { ended: false, looped: false, writes: 4 }));
    assert_eq!(player.stream_events.len(), 2);
}

#[test]
fn sequencer_trace_attaches_player_startup_timer_tick_and_time() {
    let files = EmptyFiles;
    let mut main = vec![0; 1 + 0x1a + 4];
    main[..3].copy_from_slice(&[0, 0x1a, 0]);
    main[1 + 0x1a..].copy_from_slice(&[0xe0, 0x5a, 0x80, 0x80]);

    let mut player = Player::new(44_100);
    player.load(&main, &files).expect("synthetic PMD should load");
    player.advance_tick().expect("command tick should run");

    let mut trace = Vec::new();
    player.take_sequencer_trace(&mut trace);
    assert_eq!(
        trace,
        [
            RegisterWrite { time_us: 15_956, tick: 1, address: 0x22, value: 0x5a },
            RegisterWrite { time_us: 15_956, tick: 1, address: 0x27, value: 0x3f },
        ]
    );
}

#[test]
fn load_rejects_a_nonzero_part_offset_outside_the_work_area() {
    let files = EmptyFiles;
    let mut main = vec![0; 1 + 0x1a];
    main[..3].copy_from_slice(&[0, 0x1a, 0]);
    main[1 + 0x14..1 + 0x16].copy_from_slice(&0xfff0_u16.to_le_bytes());
    let mut player = Player::new(44_100);
    assert_eq!(player.load(&main, &files), Err(Error::InvalidStream));
}

#[test]
fn render_without_a_song_is_silence_and_keeps_the_position() {
    let mut player = Player::new(44_100);
    let mut output = [7; 5];
    player.render_pcm(&mut output);
    assert_eq!(output, [0; 5]);
    assert_eq!(player.position_samples(), 0);
    let mut trace = Vec::new();
    player.take_sequencer_trace(&mut trace);
    assert!(trace.is_empty());
    assert_eq!(player.tick(), Ok(pmd_core::TickStatus { ended: true, looped: false, writes: 0 }));
}

#[test]
fn playing_a_song_advances_the_position_and_reaches_its_end() {
    let files = EmptyFiles;
    let mut main = vec![0; 1 + 0x1a + 3];
    main[..3].copy_from_slice(&[0, 0x1a, 0]);
    main[1 + 0x1a..].copy_from_slice(&[0x21, 1, 0x80]);
    let mut player = Player::new(44_100);
    player.load(&main, &files).expect("synthetic PMD should load");
    let mut output = vec![0; 2 * 4096 + 1];
    player.render_pcm(&mut output);
    assert_eq!(player.position_samples(), 4096);
    assert_eq!(output[2 * 4096], 0);
    assert!(player.playback_status().ended);
}
