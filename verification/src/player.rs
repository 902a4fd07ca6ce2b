use vstd::prelude::*;
use std::collections::VecDeque;
use crate::opna::chip::ChipPeaks;
use crate::opna::renderer::ChipRenderer;
use crate::opna::trace::RegisterWrite as TraceWrite;
use crate::pmd::banks::{AdpcmBank, CompanionBanks, CompanionLoadError, load_companions};
use crate::pmd::channel::RegisterWrite;
use crate::pmd::stream::{PartEvent, SongRunner, SongTick, layout_part, part_out_of_range, song_runner_reset};
use crate::pmd::timing::{PmdTiming, timer_b_to_quarter};
use crate::pmd::{MainLayout, ParsedSong, layout_of, memo_string_spec, parse_song, parse_song_error, u16_at};
use crate::visual::{ChannelSnapshot, PlaybackStatus, channel_snapshot_after_events, empty_channel_snapshots, rows_after_events};

verus! {

/// Supplies companion files (sample banks) by name.
pub trait FileProvider {
    fn get(&self, name: &str) -> Option<&[u8]>;
}

/// The display texts a song carries.
#[derive(Clone, Debug, PartialEq, Eq)]
pub struct Metadata {
    pub title: Option<String>,
    pub composer: Option<String>,
    pub arranger: Option<String>,
    pub comment: Option<String>,
}

impl Default for Metadata {
    fn default() -> (metadata: Self)
        ensures
            metadata.title is None,
            metadata.composer is None,
            metadata.arranger is None,
            metadata.comment is None,
    {
        Metadata { title: None, composer: None, arranger: None, comment: None }
    }
}

/// What one sequencer tick did.
#[derive(Clone, Copy, Debug, PartialEq, Eq, Structural)]
pub struct TickStatus {
    pub ended: bool,
    pub looped: bool,
    pub writes: usize,
}

/// Why a song or its companions could not be loaded or played.
#[derive(Clone, Copy, Debug, PartialEq, Eq, Structural)]
#[non_exhaustive]
pub enum Error {
    InvalidSampleRate,
    EmptyMainFile,
    TruncatedFile,
    FileTooLarge,
    InvalidHeader,
    InvalidStream,
    MissingCompanion,
    InvalidCompanion,
}


/// The OPNA clock of the PC-98 sound board.
pub const OPNA_CLOCK_HZ: u32 = 7_987_200;
/// The SSG volume of the reference driver (-18 dB).
pub const PMD_PSG_VOLUME_NEG18: i32 = 23_253;
/// The wait after each register write, in nanoseconds.
pub const DEFAULT_REGISTER_WAIT_NS: u64 = 30_000;
/// The rate of the reference player's source stream.
pub const OPNA_SOURCE_RATE: u64 = 55_466;
/// The frames rendered after the song ends.
pub const END_TAIL_FRAMES: usize = 1024;
/// The size of the ADPCM memory.
pub const ADPCM_MEMORY_SIZE: usize = 0x40000;
/// Where the ADPCM bank's data starts in that memory.
pub const ADPCM_DATA_OFFSET: usize = 0x4c0;
/// More steps than any output request can take.
pub const RENDER_FUEL: u64 = 0xffff_ffff_ffff_ffff;

/// The timer B steps the first period is shortened by at a sample rate.
pub open spec fn startup_delta(sample_rate: u32) -> u8 {
    if sample_rate == 55_467 { 12 } else { 11 }
}

pub fn startup_timer_b_delta(sample_rate: u32) -> (delta: u8)
    ensures
        delta == startup_delta(sample_rate),
{
    if sample_rate == 55_467 { 12 } else { 11 }
}

/// Register writes the chip receives at one point of driver time, with
/// the display state and end flag they bring.
#[derive(Debug)]
pub struct DriverEvent {
    pub frame: u64,
    pub time_us: u64,
    pub writes: Vec<TraceWrite>,
    pub ended: bool,
    pub snapshot: Option<[ChannelSnapshot; 11]>,
}

/// The output frames between two driver times at a sample rate (whole
/// frames, saturating).
pub open spec fn frame_delta_spec(time_us: u64, scheduled_time_us: u64, sample_rate: u32) -> int {
    let elapsed = if time_us > scheduled_time_us { time_us - scheduled_time_us } else { 0 };
    let scaled = if elapsed * sample_rate > u64::MAX { u64::MAX as int } else { elapsed * sample_rate };
    scaled / 1_000_000
}

pub fn frame_delta(time_us: u64, scheduled_time_us: u64, sample_rate: u32) -> (frames: u64)
    ensures
        frames == frame_delta_spec(time_us, scheduled_time_us, sample_rate),
{
    let elapsed = time_us.saturating_sub(scheduled_time_us);
    let scaled = match elapsed.checked_mul(sample_rate as u64) {
        Some(product) => product,
        None => u64::MAX,
    };
    scaled / 1_000_000
}

/// The ADPCM memory a bank is played from: filled with 0x08, the bank's
/// data (as much as fits) from the data offset on.
pub open spec fn adpcm_image(data: Seq<u8>) -> Seq<u8> {
    let length = if data.len() < ADPCM_MEMORY_SIZE - ADPCM_DATA_OFFSET { data.len() as int } else { (ADPCM_MEMORY_SIZE - ADPCM_DATA_OFFSET) as int };
    Seq::new(ADPCM_MEMORY_SIZE as nat, |i: int| if ADPCM_DATA_OFFSET <= i < ADPCM_DATA_OFFSET + length { data[i - ADPCM_DATA_OFFSET] } else { 0x08u8 })
}

pub fn adpcm_memory_image(bank: &AdpcmBank) -> (memory: Vec<u8>)
    ensures
        memory@ == adpcm_image(bank.data@),
{
    let length = if bank.data.len() < ADPCM_MEMORY_SIZE - ADPCM_DATA_OFFSET { bank.data.len() } else { ADPCM_MEMORY_SIZE - ADPCM_DATA_OFFSET };
    let mut memory: Vec<u8> = Vec::new();
    let mut index: usize = 0;
    while index < ADPCM_MEMORY_SIZE
        invariant
            index <= ADPCM_MEMORY_SIZE,
            memory@.len() == index,
            length == (if bank.data@.len() < ADPCM_MEMORY_SIZE - ADPCM_DATA_OFFSET { bank.data@.len() as int } else { (ADPCM_MEMORY_SIZE - ADPCM_DATA_OFFSET) as int }),
            forall|i: int| 0 <= i < index ==> #[trigger] memory@[i] == adpcm_image(bank.data@)[i],
        decreases ADPCM_MEMORY_SIZE - index,
    {
        let value = if ADPCM_DATA_OFFSET <= index && index < ADPCM_DATA_OFFSET + length { bank.data[index - ADPCM_DATA_OFFSET] } else { 0x08 };
        memory.push(value);
        index = index + 1;
    }
    assert(memory@ =~= adpcm_image(bank.data@));
    memory
}

/// The error a companion bank failure becomes.
pub open spec fn companion_error(error: CompanionLoadError) -> Error {
    match error {
        CompanionLoadError::Missing => Error::MissingCompanion,
        CompanionLoadError::Invalid => Error::InvalidCompanion,
    }
}

/// Plays PMD songs: sequences them, drives the chip emulation at driver
/// time and renders output frames.
pub struct Player {
    pub sample_rate: u32,
    pub metadata: Metadata,
    pub position_samples: u64,
    pub loop_count: Option<u32>,
    pub song: Option<ParsedSong>,
    pub companion_banks: CompanionBanks,
    pub runner: Option<SongRunner>,
    pub stream_events: Vec<PartEvent>,
    pub stream_writes: Vec<RegisterWrite>,
    pub stream_trace: Vec<TraceWrite>,
    pub timing: PmdTiming,
    pub chip: Option<ChipRenderer>,
    pub pending_events: VecDeque<DriverEvent>,
    pub driver_timer_times: Vec<u64>,
    pub scheduled_time_us: u64,
    pub scheduled_output_frame: u64,
    pub render_block: Vec<[i32; 2]>,
    pub wait_samples: VecDeque<[i32; 2]>,
    pub output_samples: VecDeque<[i32; 2]>,
    pub generated_output_frame: u64,
    pub register_wait_fractional: u64,
    pub sequencer_ended: bool,
    pub end_tail_frames: usize,
    pub channel_mutes: [bool; 11],
    pub channel_snapshots: [ChannelSnapshot; 11],
    pub tick_counter: u64,
}

/// Register work changes only the chip, the frames rendered during
/// waits and the carried wait, keeping the player well formed.
pub open spec fn chip_work(o: Player, f: Player) -> bool {
    &&& f.wf()
    &&& f == (Player { chip: f.chip, wait_samples: f.wait_samples, register_wait_fractional: f.register_wait_fractional, ..o })
    &&& (f.chip is Some == o.chip is Some)
}

/// The rate the register waits are rendered at: the chip's source rate
/// with interpolation, else its target rate; the output rate without a chip.
pub open spec fn register_wait_rate(p: Player) -> u64 {
    match p.chip {
        Some(chip) => if chip.interpolation { OPNA_SOURCE_RATE } else { chip.target_rate as u64 },
        None => p.sample_rate as u64,
    }
}

/// One register wait at a rate with a carried fraction: the whole frames
/// to render and the fraction (in thousandths of a frame) carried on.
pub open spec fn wait_step(rate: u64, fractional: u64) -> (nat, u64) {
    let product = DEFAULT_REGISTER_WAIT_NS * rate;
    let count = (if product > u64::MAX { u64::MAX as int } else { product }) / 1_000_000;
    let carried = fractional + count % 1_000;
    if carried > 1_000 {
        ((count / 1_000 + 1) as nat, (carried - 1_000) as u64)
    } else {
        ((count / 1_000) as nat, carried as u64)
    }
}

/// `n` register waits in a row: the frames rendered and the fraction left.
pub open spec fn waits(rate: u64, fractional: u64, n: nat) -> (nat, u64)
    decreases n,
{
    if n == 0 {
        (0, fractional)
    } else {
        let before = waits(rate, fractional, (n - 1) as nat);
        let step = wait_step(rate, before.1);
        (before.0 + step.0, step.1)
    }
}

pub proof fn lemma_waits_split(rate: u64, fractional: u64, a: nat, b: nat)
    ensures
        waits(rate, fractional, a + b) == ({
            let first = waits(rate, fractional, a);
            let second = waits(rate, first.1, b);
            (first.0 + second.0, second.1)
        }),
    decreases b,
{
    if b > 0 {
        lemma_waits_split(rate, fractional, a, (b - 1) as nat);
        assert((a + b - 1) as nat == a + (b - 1) as nat);
    } else {
        assert(a + b == a);
    }
}

/// Register work that renders `n` waits: the chip keeps its rates, the
/// waits' frames are added to the wait buffer (silence without a chip) and
/// the carried fraction moves on.
pub open spec fn waited(o: Player, f: Player, n: nat) -> bool {
    let w = waits(register_wait_rate(o), o.register_wait_fractional, n);
    &&& chip_work(o, f)
    &&& register_wait_rate(f) == register_wait_rate(o)
    &&& f.register_wait_fractional == w.1
    &&& f.wait_samples@.len() == o.wait_samples@.len() + w.0
    &&& f.wait_samples@.subrange(0, o.wait_samples@.len() as int) == o.wait_samples@
    &&& o.chip is None ==> forall|i: int| o.wait_samples@.len() <= i < f.wait_samples@.len()
        ==> #[trigger] f.wait_samples@[i] == [0i32, 0]
}

pub proof fn lemma_waited_chain(a: Player, b: Player, c: Player, n: nat, m: nat)
    requires
        waited(a, b, n),
        waited(b, c, m),
    ensures
        waited(a, c, n + m),
{
    lemma_waits_split(register_wait_rate(a), a.register_wait_fractional, n, m);
    assert(c.wait_samples@.subrange(0, a.wait_samples@.len() as int)
        =~= c.wait_samples@.subrange(0, b.wait_samples@.len() as int).subrange(0, a.wait_samples@.len() as int));
    if a.chip is None {
        assert forall|i: int| a.wait_samples@.len() <= i < c.wait_samples@.len() implies #[trigger] c.wait_samples@[i] == [0i32, 0] by {
            if i < b.wait_samples@.len() {
                assert(c.wait_samples@[i] == c.wait_samples@.subrange(0, b.wait_samples@.len() as int)[i]);
            }
        }
    }
}

/// Register work of `first` waits, a clear of the wait buffer, then
/// `second` waits: only the later waits' frames stay buffered.
pub open spec fn waited_then_cleared(o: Player, f: Player, first: nat, second: nat) -> bool {
    let a = waits(register_wait_rate(o), o.register_wait_fractional, first);
    let b = waits(register_wait_rate(o), a.1, second);
    &&& chip_work(o, f)
    &&& register_wait_rate(f) == register_wait_rate(o)
    &&& f.register_wait_fractional == b.1
    &&& f.wait_samples@.len() == b.0
    &&& o.chip is None ==> forall|i: int| 0 <= i < f.wait_samples@.len() ==> #[trigger] f.wait_samples@[i] == [0i32, 0]
}

/// Whether a main file names no companion bank (only the 0x1a format
/// names any).
pub open spec fn names_no_companion(main: Seq<u8>) -> bool {
    let mml = main.subrange(1, main.len() as int);
    let pao = u16_at(mml, 0x18);
    main[1] != 0x1a || (memo_string_spec(mml, pao, 0, false) is None && memo_string_spec(mml, pao, -1, false) is None
        && memo_string_spec(mml, pao, -2, false) is None)
}

/// Whether every part a main file's layout starts lies inside its stream.
pub open spec fn streams_fit(main: Seq<u8>) -> bool {
    let mml = main.subrange(1, main.len() as int);
    forall|layout: MainLayout, k: int| #[trigger] layout_of(mml, layout) && 0 <= k < 11
        ==> !part_out_of_range(layout, mml, #[trigger] layout_part(k))
}

fn copy_text(text: &Option<String>) -> (copy: Option<String>)
    ensures
        copy == *text,
{
    match text {
        Some(t) => Some(t.clone()),
        None => None,
    }
}

/// A copy of a song's display texts.
fn copy_metadata(metadata: &Metadata) -> (copy: Metadata)
    ensures
        copy == *metadata,
{
    Metadata {
        title: copy_text(&metadata.title),
        composer: copy_text(&metadata.composer),
        arranger: copy_text(&metadata.arranger),
        comment: copy_text(&metadata.comment),
    }
}

/// What a successful tick of a loaded song did: `t` is the runner's own
/// tick (its end and loop), and the last `t.writes` trace rows are the
/// runner's writes of the tick, in order.
pub open spec fn tick_traced(o: Player, f: Player, t: SongTick) -> bool {
    let length = f.stream_trace@.len();
    &&& o.runner matches Some(r) && f.runner matches Some(g) && {
        &&& t.ended == g.ended
        &&& g.loops_completed == (if t.looped {
            if r.loops_completed == u32::MAX { u32::MAX as int } else { r.loops_completed + 1 }
        } else {
            r.loops_completed as int
        })
    }
    &&& t.writes == f.stream_writes@.len()
    &&& length >= o.stream_trace@.len() + t.writes
    &&& forall|k: int| 0 <= k < t.writes ==> {
        &&& (#[trigger] f.stream_trace@[length - t.writes + k]).address == f.stream_writes@[k].address
        &&& f.stream_trace@[length - t.writes + k].value == f.stream_writes@[k].value
    }
}

/// Interleaved output taken from the buffered frames: `filled` is the
/// buffer once rendering has caught up (the old buffer first), its first
/// whole-frame count of frames go out left then right (silence past its
/// end, and in a trailing odd slot), and the rest stays buffered.
pub open spec fn pcm_taken(before: Seq<[i32; 2]>, filled: Seq<[i32; 2]>, after: Seq<[i32; 2]>, out: Seq<i32>) -> bool {
    &&& filled.len() >= before.len()
    &&& filled.subrange(0, before.len() as int) == before
    &&& after == filled.subrange(frames_taken(filled, out), filled.len() as int)
    &&& pcm_samples(filled, out)
}

/// How many buffered frames whole-frame output takes.
pub open spec fn frames_taken(filled: Seq<[i32; 2]>, out: Seq<i32>) -> int {
    if out.len() / 2 < filled.len() { (out.len() / 2) as int } else { filled.len() as int }
}

/// Each whole output frame is the buffered frame at its index (silence
/// past the buffer's end).
pub open spec fn pcm_samples(filled: Seq<[i32; 2]>, out: Seq<i32>) -> bool {
    forall|i: int| 0 <= i < out.len() / 2 ==> #[trigger] pcm_frame_ok(filled, out, i)
}

/// Whole output frame `i` is buffered frame `i` (silence past the end).
pub open spec fn pcm_frame_ok(filled: Seq<[i32; 2]>, out: Seq<i32>, i: int) -> bool {
    &&& out[2 * i] == (if i < filled.len() { filled[i]@[0] } else { 0i32 })
    &&& out[2 * i + 1] == (if i < filled.len() { filled[i]@[1] } else { 0i32 })
}

/// A player with other driver timing.
pub open spec fn with_timing(p: Player, timing: PmdTiming) -> Player {
    Player { timing, ..p }
}

impl Player {
    /// What the player keeps between calls: a well-formed sequencer, timing
    /// and chip, a loaded song only at a nonzero rate, a carried register
    /// wait below a frame and a half.
    pub open spec fn wf(&self) -> bool {
        &&& (self.runner matches Some(r) ==> r.wf())
        &&& self.timing.wf()
        &&& (self.chip matches Some(c) ==> c.wf())
        &&& (self.song is Some ==> self.sample_rate != 0)
        &&& self.register_wait_fractional <= 1000
    }

    /// A player for an output rate, with nothing loaded.
    pub fn new(sample_rate: u32) -> (player: Self)
        ensures
            player.wf(),
            player.sample_rate == sample_rate,
            player.song is None && player.runner is None && player.chip is None,
            player.position_samples == 0 && player.tick_counter == 0,
            player.loop_count is None,
            player.sequencer_ended,
            forall|i: int| 0 <= i < 11 ==> !#[trigger] player.channel_mutes@[i],
    {
        Player {
            sample_rate,
            metadata: Metadata::default(),
            position_samples: 0,
            loop_count: None,
            song: None,
            companion_banks: CompanionBanks::empty(),
            runner: None,
            stream_events: Vec::new(),
            stream_writes: Vec::new(),
            stream_trace: Vec::new(),
            timing: PmdTiming::new(OPNA_CLOCK_HZ).unwrap(),
            chip: None,
            pending_events: VecDeque::new(),
            driver_timer_times: Vec::new(),
            scheduled_time_us: 0,
            scheduled_output_frame: 0,
            render_block: Vec::new(),
            wait_samples: VecDeque::new(),
            output_samples: VecDeque::new(),
            generated_output_frame: 0,
            register_wait_fractional: 0,
            sequencer_ended: true,
            end_tail_frames: 0,
            channel_mutes: [false; 11],
            channel_snapshots: empty_channel_snapshots(),
            tick_counter: 0,
        }
    }

    pub fn metadata(&self) -> (metadata: &Metadata)
        ensures
            *metadata == self.metadata,
    {
        &self.metadata
    }

    pub fn position_samples(&self) -> (position: u64)
        ensures
            position == self.position_samples,
    {
        self.position_samples
    }

    pub fn channel_snapshots(&self) -> (snapshots: [ChannelSnapshot; 11])
        ensures
            snapshots == self.channel_snapshots,
    {
        self.channel_snapshots
    }

    /// The sequencer's progress; a player without a song reports itself
    /// ended.
    pub fn playback_status(&self) -> (status: PlaybackStatus)
        ensures
            self.runner is None ==> status == (PlaybackStatus {
                ticks: 0,
                loops_completed: 0,
                loop_limit: self.loop_count,
                timer_b: 0,
                tempo_quarter: 0,
                ended: true,
            }),
            self.runner matches Some(r) ==> status.ticks == self.tick_counter && status.loops_completed == r.loops_completed
                && status.loop_limit == self.loop_count && status.timer_b == r.globals.tempo.timer_b
                && status.ended == self.sequencer_ended,
    {
        match &self.runner {
            None => PlaybackStatus {
                ticks: 0,
                loops_completed: 0,
                loop_limit: self.loop_count,
                timer_b: 0,
                tempo_quarter: 0,
                ended: true,
            },
            Some(runner) => {
                let timer_b = runner.timer_b_value();
                PlaybackStatus {
                    ticks: self.tick_counter,
                    loops_completed: runner.loops_completed(),
                    loop_limit: self.loop_count,
                    timer_b,
                    tempo_quarter: timer_b_to_quarter(timer_b),
                    ended: self.sequencer_ended,
                }
            },
        }
    }

    /// Sets the loop limit for this and later songs.
    pub fn set_loop_count(&mut self, count: Option<u32>)
        requires
            old(self).wf(),
        ensures
            final(self).wf(),
            final(self).loop_count == count,
            final(self).runner is Some == old(self).runner is Some,
            final(self).runner matches Some(r) ==> r.loop_count == count && r.loops_completed == 0,
    {
        self.loop_count = count;
        match self.runner.take() {
            Some(mut runner) => {
                runner.set_loop_count(count);
                self.runner = Some(runner);
            },
            None => {},
        }
    }

    /// Mutes or unmutes an output channel (0 to 10); other numbers are
    /// refused.
    pub fn set_channel_mute(&mut self, channel: usize, muted: bool) -> (accepted: bool)
        requires
            old(self).wf(),
        ensures
            final(self).wf(),
            accepted == (channel < 11),
            accepted ==> final(self).channel_mutes@ == old(self).channel_mutes@.update(channel as int, muted),
            !accepted ==> *final(self) == *old(self),
            accepted ==> *final(self) == (Player { channel_mutes: final(self).channel_mutes, chip: final(self).chip, ..*old(self) }),
    {
        if channel >= 11 {
            return false;
        }
        self.channel_mutes[channel] = muted;
        match self.chip.take() {
            Some(mut chip) => {
                chip.set_channel_mute(channel, muted);
                self.chip = Some(chip);
            },
            None => {},
        }
        true
    }

    pub fn channel_muted(&self, channel: usize) -> (muted: Option<bool>)
        ensures
            muted == (if channel < 11 { Some(self.channel_mutes@[channel as int]) } else { None::<bool> }),
    {
        if channel < 11 { Some(self.channel_mutes[channel]) } else { None }
    }

    /// The voice peaks of the chip since they were last taken, with the FM
    /// and SSG volumes they are scaled by; none without a chip.
    pub fn take_chip_peaks(&mut self) -> (peaks: Option<(ChipPeaks, i32, i32)>)
        requires
            old(self).wf(),
        ensures
            final(self).wf(),
            peaks is Some == old(self).chip is Some,
    {
        match self.chip.take() {
            Some(mut chip) => {
                let peaks = chip.take_peaks();
                let fm_volume = chip.fm_volume();
                let psg_volume = chip.psg_volume();
                self.chip = Some(chip);
                Some((peaks, fm_volume, psg_volume))
            },
            None => None,
        }
    }

    /// Moves the sequencer's register trace to `output`.
    pub fn take_sequencer_trace(&mut self, output: &mut Vec<TraceWrite>)
        ensures
            final(output)@ == old(output)@ + old(self).stream_trace@,
            final(self).stream_trace@.len() == 0,
    {
        output.append(&mut self.stream_trace);
    }

    /// Renders the register wait before a write: 30 microseconds of chip
    /// output at the chip's rate, the fraction carried in thousandths.
    pub fn apply_register_wait(&mut self)
        requires
            old(self).wf(),
        ensures
            waited(*old(self), *final(self), 1),
    {
        proof {
            reveal_with_fuel(waits, 2);
        }
        let wait_rate: u64 = match &self.chip {
            Some(chip) => if chip.interpolation() { OPNA_SOURCE_RATE } else { chip.target_rate() as u64 },
            None => self.sample_rate as u64,
        };
        let wait_count = match DEFAULT_REGISTER_WAIT_NS.checked_mul(wait_rate) {
            Some(product) => product,
            None => u64::MAX,
        } / 1_000_000;
        let mut frame_count = wait_count / 1_000;
        self.register_wait_fractional = self.register_wait_fractional + wait_count % 1_000;
        if self.register_wait_fractional > 1_000 {
            frame_count = frame_count + 1;
            self.register_wait_fractional = self.register_wait_fractional - 1_000;
        }
        assert(frame_count == wait_step(register_wait_rate(*old(self)), old(self).register_wait_fractional).0);
        assert(self.register_wait_fractional == wait_step(register_wait_rate(*old(self)), old(self).register_wait_fractional).1);
        let mut done: u64 = 0;
        assert(self.wait_samples@.subrange(0, old(self).wait_samples@.len() as int) =~= old(self).wait_samples@);
        while done < frame_count
            invariant
                done <= frame_count,
                chip_work(*old(self), *self),
                register_wait_rate(*self) == register_wait_rate(*old(self)),
                self.register_wait_fractional == wait_step(register_wait_rate(*old(self)), old(self).register_wait_fractional).1,
                self.wait_samples@.len() == old(self).wait_samples@.len() + done,
                self.wait_samples@.subrange(0, old(self).wait_samples@.len() as int) == old(self).wait_samples@,
                old(self).chip is None ==> forall|i: int| old(self).wait_samples@.len() <= i < self.wait_samples@.len()
                    ==> #[trigger] self.wait_samples@[i] == [0i32, 0],
            decreases frame_count - done,
        {
            let sample = self.render_chip_one();
            let ghost before = self.wait_samples@;
            self.wait_samples.push_back(sample);
            assert(self.wait_samples@.subrange(0, old(self).wait_samples@.len() as int)
                =~= before.subrange(0, old(self).wait_samples@.len() as int));
            proof {
                if old(self).chip is None {
                    assert(sample@ =~= seq![0i32, 0]);
                    assert(sample == [0i32, 0]);
                }
            }
            done = done + 1;
        }
    }

    /// One frame of chip output (silence without a chip).
    pub fn render_chip_one(&mut self) -> (sample: [i32; 2])
        requires
            old(self).wf(),
        ensures
            final(self).wf(),
            *final(self) == (Player { chip: final(self).chip, ..*old(self) }),
            final(self).chip is Some == old(self).chip is Some,
            old(self).chip is None ==> sample@ == seq![0i32, 0],
            register_wait_rate(*final(self)) == register_wait_rate(*old(self)),
    {
        let mut output: [[i32; 2]; 1] = [[0; 2]];
        match self.chip.take() {
            Some(mut chip) => {
                chip.render_source(&mut output);
                self.chip = Some(chip);
            },
            None => {},
        }
        output[0]
    }

    /// Waits, then writes a register (when a chip is present).
    pub fn apply_startup_write(&mut self, address: u16, value: u8)
        requires
            old(self).wf(),
        ensures
            waited(*old(self), *final(self), 1),
    {
        self.apply_register_wait();
        match self.chip.take() {
            Some(mut chip) => {
                chip.write(address, value);
                self.chip = Some(chip);
            },
            None => {},
        }
    }

    /// Writes a list of registers in order, each after its wait.
    pub fn apply_startup_writes(&mut self, writes: &[(u16, u8)])
        requires
            old(self).wf(),
        ensures
            waited(*old(self), *final(self), writes@.len()),
    {
        let mut index: usize = 0;
        assert(self.wait_samples@.subrange(0, old(self).wait_samples@.len() as int) =~= old(self).wait_samples@);
        while index < writes.len()
            invariant
                index <= writes@.len(),
                waited(*old(self), *self, index as nat),
            decreases writes@.len() - index,
        {
            let (address, value) = writes[index];
            let ghost before = *self;
            self.apply_startup_write(address, value);
            proof {
                lemma_waits_split(register_wait_rate(*old(self)), old(self).register_wait_fractional, index as nat, 1);
                reveal_with_fuel(waits, 2);
                assert(self.wait_samples@.subrange(0, old(self).wait_samples@.len() as int)
                    =~= self.wait_samples@.subrange(0, before.wait_samples@.len() as int).subrange(0, old(self).wait_samples@.len() as int));
                if old(self).chip is None {
                    assert forall|i: int| old(self).wait_samples@.len() <= i < self.wait_samples@.len()
                        implies #[trigger] self.wait_samples@[i] == [0i32, 0] by {
                        if i < before.wait_samples@.len() {
                            assert(self.wait_samples@[i] == self.wait_samples@.subrange(0, before.wait_samples@.len() as int)[i]);
                        }
                    }
                }
            }
            index = index + 1;
        }
    }

    /// The driver's silencing writes: release rates up, keys off, SSG and
    /// rhythm quiet, ADPCM stopped.
    pub fn apply_silence(&mut self)
        requires
            old(self).wf(),
        ensures
            waited(*old(self), *final(self), 39),
    {
        let writes: [(u16, u8); 39] = [
            (0x080, 0xff), (0x081, 0xff), (0x082, 0xff), (0x084, 0xff), (0x085, 0xff), (0x086, 0xff),
            (0x088, 0xff), (0x089, 0xff), (0x08a, 0xff), (0x08c, 0xff), (0x08d, 0xff), (0x08e, 0xff),
            (0x180, 0xff), (0x181, 0xff), (0x184, 0xff), (0x185, 0xff), (0x188, 0xff), (0x189, 0xff),
            (0x18c, 0xff), (0x18d, 0xff), (0x182, 0xff), (0x186, 0xff), (0x18a, 0xff), (0x18e, 0xff),
            (0x28, 0x00), (0x28, 0x01), (0x28, 0x02), (0x28, 0x04), (0x28, 0x05), (0x28, 0x06),
            (0x007, 0xbf), (0x008, 0x00), (0x009, 0x00), (0x00a, 0x00), (0x010, 0xff), (0x101, 0x02),
            (0x100, 0x01), (0x110, 0x80), (0x110, 0x18),
        ];
        self.apply_startup_writes(&writes);
    }

    /// The driver's OPN initialisation: interrupts on, SSG noise, SSG-EG
    /// off, FM pans centred, LFO off, rhythm and ADPCM limits.
    pub fn apply_opn_init_registers(&mut self)
        requires
            old(self).wf(),
        ensures
            waited(*old(self), *final(self), 37),
    {
        let writes: [(u16, u8); 37] = [
            (0x029, 0x83), (0x006, 0x00),
            (0x090, 0x00), (0x091, 0x00), (0x092, 0x00), (0x094, 0x00), (0x095, 0x00), (0x096, 0x00),
            (0x098, 0x00), (0x099, 0x00), (0x09a, 0x00), (0x09c, 0x00), (0x09d, 0x00), (0x09e, 0x00),
            (0x190, 0x00), (0x191, 0x00), (0x192, 0x00), (0x194, 0x00), (0x195, 0x00), (0x196, 0x00),
            (0x198, 0x00), (0x199, 0x00), (0x19a, 0x00), (0x19c, 0x00), (0x19d, 0x00), (0x19e, 0x00),
            (0x0b4, 0xc0), (0x0b5, 0xc0), (0x0b6, 0xc0), (0x1b4, 0xc0), (0x1b5, 0xc0), (0x1b6, 0xc0),
            (0x022, 0x00), (0x010, 0xff), (0x011, 0x30), (0x10c, 0xff), (0x10d, 0xff),
        ];
        self.apply_startup_writes(&writes);
    }

    /// Drops the frames rendered during register waits.
    pub fn clear_output_buffer(&mut self)
        ensures
            *final(self) == (Player { wait_samples: final(self).wait_samples, ..*old(self) }),
            final(self).wait_samples@.len() == 0,
    {
        self.wait_samples.clear();
    }
}


impl Player {
    /// The writes the driver makes when it starts: timers stopped, OPN
    /// initialised, SSG mixer off, silence, then timer B at its default and
    /// interrupts on.
    pub fn apply_initial_driver_init(&mut self)
        requires
            old(self).wf(),
        ensures
            waited_then_cleared(*old(self), *final(self), 5, 82),
    {
        let first: [(u16, u8); 5] = [(0x029, 0x00), (0x024, 0x00), (0x025, 0x00), (0x026, 0x00), (0x027, 0x3f)];
        self.apply_startup_writes(&first);
        self.clear_output_buffer();
        let ghost cleared = *self;
        self.apply_opn_init_registers();
        let ghost s3 = *self;
        self.apply_startup_write(0x007, 0xbf);
        let ghost s4 = *self;
        self.apply_silence();
        let ghost s5 = *self;
        let last: [(u16, u8); 5] = [(0x026, 0xc8), (0x025, 0x00), (0x024, 0x00), (0x027, 0x3f), (0x029, 0x83)];
        self.apply_startup_writes(&last);
        proof {
            lemma_waited_chain(cleared, s3, s4, 37, 1);
            lemma_waited_chain(cleared, s4, s5, 38, 39);
            lemma_waited_chain(cleared, s5, *self, 77, 5);
        }
    }

    /// The driver's timer setup: timer B at its default, timers enabled.
    pub fn apply_setint(&mut self)
        requires
            old(self).wf(),
        ensures
            waited(*old(self), *final(self), 4),
    {
        let writes: [(u16, u8); 4] = [(0x026, 0xc8), (0x025, 0x00), (0x024, 0x00), (0x027, 0x3f)];
        self.apply_startup_writes(&writes);
    }

    /// The writes at the start of a song: timers stopped, silence, OPN
    /// initialised, timers set up; driver timing restarts.
    pub fn apply_music_start(&mut self)
        requires
            old(self).wf(),
        ensures
            waited_then_cleared(with_timing(*old(self), final(self).timing), *final(self), 41, 42),
    {
        let ghost s0 = *self;
        self.apply_startup_write(0x26, 0x00);
        let ghost s1 = *self;
        self.apply_startup_write(0x27, 0x00);
        let ghost s2 = *self;
        self.apply_silence();
        proof {
            lemma_waited_chain(s0, s1, s2, 1, 1);
            lemma_waited_chain(s0, s2, *self, 2, 39);
        }
        self.clear_output_buffer();
        let ghost cleared = *self;
        self.apply_opn_init_registers();
        let ghost s3 = *self;
        self.apply_setint();
        let ghost s4 = *self;
        self.apply_startup_write(0x027, 0x3f);
        proof {
            lemma_waited_chain(cleared, s3, s4, 37, 4);
            lemma_waited_chain(cleared, s4, *self, 41, 1);
        }
        let delta = startup_timer_b_delta(self.sample_rate);
        self.timing.start_with_timer_b_delta(delta);
        proof {
            assert(register_wait_rate(with_timing(s0, self.timing)) == register_wait_rate(s0));
        }
    }

    /// A fresh chip at the output rate, loaded with the song's ADPCM bank,
    /// with the channel mutes applied and the driver's startup writes
    /// replayed; playback state starts over.
    pub fn reset_renderer(&mut self)
        requires
            old(self).wf(),
            old(self).sample_rate != 0,
        ensures
            final(self).wf(),
            final(self).chip is Some,
            final(self).sample_rate == old(self).sample_rate,
            final(self).song is Some == old(self).song is Some,
            final(self).song == old(self).song,
            final(self).metadata == old(self).metadata,
            final(self).channel_snapshots == old(self).channel_snapshots,
            final(self).runner == old(self).runner,
            final(self).pending_events@.len() == 0,
            final(self).output_samples@.len() == 0,
            !final(self).sequencer_ended,
            final(self).end_tail_frames == 0,
            final(self).channel_mutes == old(self).channel_mutes,
            final(self).scheduled_time_us == 0 && final(self).scheduled_output_frame == 0,
            final(self).generated_output_frame == 0,
            final(self).position_samples == old(self).position_samples,
            final(self).tick_counter == old(self).tick_counter,
            final(self).loop_count == old(self).loop_count,
    {
        let mut chip = ChipRenderer::new(OPNA_CLOCK_HZ, 44_100, false).unwrap();
        chip.set_psg_volume(PMD_PSG_VOLUME_NEG18);
        match &self.companion_banks.adpcm {
            Some(bank) => {
                let memory = adpcm_memory_image(bank);
                chip.set_adpcm_a_memory(memory.as_slice());
            },
            None => {},
        }
        let mut channel: usize = 0;
        while channel < 11
            invariant
                channel <= 11,
                chip.wf(),
            decreases 11 - channel,
        {
            chip.set_channel_mute(channel, self.channel_mutes[channel]);
            channel = channel + 1;
        }
        self.chip = Some(chip);
        self.pending_events = VecDeque::new();
        self.driver_timer_times.clear();
        self.scheduled_time_us = 0;
        self.scheduled_output_frame = 0;
        self.generated_output_frame = 0;
        self.wait_samples.clear();
        self.output_samples.clear();
        self.register_wait_fractional = 0;
        self.sequencer_ended = false;
        self.end_tail_frames = 0;
        self.apply_initial_driver_init();
        match self.chip.take() {
            Some(mut chip) => {
                chip.set_target_rate(self.sample_rate);
                self.chip = Some(chip);
            },
            None => {},
        }
        self.apply_silence();
        self.apply_silence();
        self.apply_silence();
        self.apply_silence();
        self.apply_music_start();
    }

    /// Loads a song (main file and the companion banks it names from
    /// `files`): refused at a zero output rate, for an empty or malformed
    /// main file, missing or malformed banks, or streams that cannot run;
    /// playback then starts from the beginning.
    pub fn load<F: FileProvider + ?Sized>(&mut self, main: &[u8], files: &F) -> (result: Result<(), Error>)
        requires
            old(self).wf(),
        ensures
            final(self).wf(),
            old(self).sample_rate == 0 ==> result == Err::<(), Error>(Error::InvalidSampleRate),
            old(self).sample_rate != 0 && main@.len() == 0 ==> result == Err::<(), Error>(Error::EmptyMainFile),
            old(self).sample_rate != 0 && main@.len() != 0 && parse_song_error(main@) is Some
                ==> result == Err::<(), Error>(parse_song_error(main@)->0),
            result is Err ==> *final(self) == *old(self),
            old(self).sample_rate != 0 && main@.len() != 0 && parse_song_error(main@) is None && names_no_companion(main@)
                && streams_fit(main@) ==> result is Ok,
            result is Ok ==> (final(self).song matches Some(song) && {
                &&& song.main@ == main@
                &&& song.flags == main@[0]
                &&& final(self).metadata == song.metadata
                &&& (final(self).runner is Some <==> song.layout is Some)
            }),
            result is Ok ==> {
                &&& final(self).song is Some
                &&& final(self).chip is Some
                &&& final(self).position_samples == 0
                &&& !final(self).sequencer_ended
                &&& final(self).loop_count == old(self).loop_count
                &&& final(self).channel_mutes == old(self).channel_mutes
                &&& final(self).runner matches Some(r) ==> r.loop_count == old(self).loop_count
            },
    {
        if self.sample_rate == 0 {
            return Err(Error::InvalidSampleRate);
        }
        if main.len() == 0 {
            return Err(Error::EmptyMainFile);
        }
        let song = match parse_song(main) {
            Ok(song) => song,
            Err(error) => {
                return Err(error);
            },
        };
        let companion_banks = match load_companions(&song.companions, files) {
            Ok(banks) => banks,
            Err(CompanionLoadError::Missing) => {
                return Err(Error::MissingCompanion);
            },
            Err(CompanionLoadError::Invalid) => {
                return Err(Error::InvalidCompanion);
            },
        };
        let use_p86 = companion_banks.p86.is_some();
        let runner = match SongRunner::from_song_with_p86(&song, use_p86) {
            Ok(runner) => runner,
            Err(_) => {
                return Err(Error::InvalidStream);
            },
        };
        self.metadata = copy_metadata(&song.metadata);
        self.song = Some(song);
        self.companion_banks = companion_banks;
        self.runner = runner;
        match self.runner.take() {
            Some(mut runner) => {
                runner.set_loop_count(self.loop_count);
                self.runner = Some(runner);
            },
            None => {},
        }
        self.position_samples = 0;
        self.channel_snapshots = empty_channel_snapshots();
        let delta = startup_timer_b_delta(self.sample_rate);
        self.timing.start_with_timer_b_delta(delta);
        self.reset_renderer();
        Ok(())
    }

    /// Back to the start of the loaded song (channel mutes and the loop
    /// limit stay); without a song the player is left silent and ended.
    pub fn reset(&mut self)
        requires
            old(self).wf(),
        ensures
            final(self).wf(),
            final(self).position_samples == 0,
            final(self).tick_counter == 0,
            final(self).channel_mutes == old(self).channel_mutes,
            final(self).loop_count == old(self).loop_count,
            final(self).song is Some == old(self).song is Some,
            final(self).runner is Some == old(self).runner is Some,
            old(self).song is None ==> final(self).chip is None && final(self).sequencer_ended,
            old(self).song is Some ==> final(self).chip is Some && !final(self).sequencer_ended,
            old(self).runner matches Some(r) ==> (final(self).runner matches Some(f) && song_runner_reset(r, f)),
            final(self).song == old(self).song,
            final(self).pending_events@.len() == 0,
    {
        self.position_samples = 0;
        self.tick_counter = 0;
        self.channel_snapshots = empty_channel_snapshots();
        match self.runner.take() {
            Some(mut runner) => {
                runner.reset();
                self.runner = Some(runner);
            },
            None => {},
        }
        self.stream_events.clear();
        self.stream_writes.clear();
        self.stream_trace.clear();
        self.pending_events = VecDeque::new();
        self.driver_timer_times.clear();
        self.scheduled_time_us = 0;
        self.scheduled_output_frame = 0;
        self.generated_output_frame = 0;
        let delta = startup_timer_b_delta(self.sample_rate);
        self.timing.start_with_timer_b_delta(delta);
        if self.song.is_some() {
            self.reset_renderer();
        } else {
            self.chip = None;
            self.pending_events = VecDeque::new();
            self.driver_timer_times.clear();
            self.scheduled_time_us = 0;
            self.scheduled_output_frame = 0;
            self.generated_output_frame = 0;
            self.wait_samples.clear();
            self.output_samples.clear();
            self.register_wait_fractional = 0;
            self.sequencer_ended = true;
            self.end_tail_frames = 0;
        }
    }
}


/// The trace write of a sequencer write at a driver time and tick.
pub open spec fn traced(write: RegisterWrite, time_us: u64, tick: u64) -> TraceWrite {
    TraceWrite { time_us, tick, address: write.address, value: write.value }
}

impl Player {
    /// One sequencer tick on the driver's timers: timer B elapses (timer A
    /// periods on the way advance the sound effect), the song ticks, and
    /// every register write is added to the trace with its driver time
    /// (timer A writes at their own time, closed by the FM3 mode register
    /// when that time is not timer B's). Without a song nothing happens.
    pub fn advance_tick(&mut self) -> (result: Result<SongTick, Error>)
        requires
            old(self).wf(),
        ensures
            final(self).wf(),
            final(self).sample_rate == old(self).sample_rate,
            final(self).song is Some == old(self).song is Some,
            final(self).chip is Some == old(self).chip is Some,
            final(self).runner is Some == old(self).runner is Some,
            final(self).pending_events == old(self).pending_events,
            final(self).sequencer_ended == old(self).sequencer_ended,
            final(self).output_samples == old(self).output_samples,
            final(self).generated_output_frame == old(self).generated_output_frame,
            final(self).scheduled_time_us == old(self).scheduled_time_us,
            final(self).scheduled_output_frame == old(self).scheduled_output_frame,
            final(self).channel_snapshots == old(self).channel_snapshots,
            final(self).position_samples == old(self).position_samples,
            final(self).stream_trace@.len() >= old(self).stream_trace@.len(),
            final(self).stream_trace@.subrange(0, old(self).stream_trace@.len() as int) == old(self).stream_trace@,
            old(self).runner is None ==> result == Ok::<SongTick, Error>(SongTick { ended: true, looped: false, writes: 0 })
                && *final(self) == *old(self),
            result is Err ==> result == Err::<SongTick, Error>(Error::InvalidStream),
            old(self).runner is Some && result is Ok ==> final(self).tick_counter == (if old(self).tick_counter == u64::MAX {
                u64::MAX
            } else {
                (old(self).tick_counter + 1) as u64
            }),
            result matches Ok(t) ==> (old(self).runner is Some ==> tick_traced(*old(self), *final(self), t)),
    {
        let mut runner = match self.runner.take() {
            Some(runner) => runner,
            None => {
                return Ok(SongTick { ended: true, looped: false, writes: 0 });
            },
        };
        let ghost trace_before = self.stream_trace@;
        let ghost first_runner = runner;
        let timer_tick = self.timing.timer_b_tick();
        self.driver_timer_times.clear();
        let ghost pre = *self;
        let mut index: usize = 0;
        while index < timer_tick.timer_a_count as usize
            invariant
                index <= timer_tick.timer_a_count <= 8,
                *self == (Player { driver_timer_times: self.driver_timer_times, ..pre }),
            decreases timer_tick.timer_a_count - index,
        {
            self.driver_timer_times.push(timer_tick.timer_a_times[index]);
            index = index + 1;
        }
        self.driver_timer_times.push(timer_tick.time_us);
        self.stream_writes.clear();
        self.stream_events.clear();
        let previous_tick = if timer_tick.tick > 0 { timer_tick.tick - 1 } else { 0 };
        assert(self.stream_trace@.subrange(0, trace_before.len() as int) =~= trace_before);
        let ghost pre = *self;
        let mut index: usize = 0;
        while index < timer_tick.timer_a_count as usize
            invariant
                index <= timer_tick.timer_a_count <= 8,
                runner.wf(),
                runner.loops_completed == first_runner.loops_completed,
                *self == (Player { stream_writes: self.stream_writes, stream_trace: self.stream_trace, ..pre }),
                self.stream_trace@.len() >= trace_before.len(),
                self.stream_trace@.subrange(0, trace_before.len() as int) == trace_before,
            decreases timer_tick.timer_a_count - index,
        {
            let time_us = timer_tick.timer_a_times[index];
            runner.timer_a_tick();
            let start = self.stream_writes.len();
            runner.take_timer_writes(&mut self.stream_writes);
            let mut k = start;
            let ghost inner = *self;
            while k < self.stream_writes.len()
                invariant
                    start <= k <= self.stream_writes@.len(),
                    *self == (Player { stream_trace: self.stream_trace, ..inner }),
                    self.stream_trace@.len() >= trace_before.len(),
                    self.stream_trace@.subrange(0, trace_before.len() as int) == trace_before,
                decreases self.stream_writes@.len() - k,
            {
                let write = self.stream_writes[k];
                let ghost before = self.stream_trace@;
                self.stream_trace.push(TraceWrite { time_us, tick: previous_tick, address: write.address, value: write.value });
                assert(self.stream_trace@.subrange(0, trace_before.len() as int) =~= before.subrange(0, trace_before.len() as int));
                k = k + 1;
            }
            if time_us != timer_tick.time_us {
                let ghost before = self.stream_trace@;
                self.stream_trace.push(TraceWrite { time_us, tick: previous_tick, address: 0x27, value: runner.ch3_mode() | 0x30 });
                assert(self.stream_trace@.subrange(0, trace_before.len() as int) =~= before.subrange(0, trace_before.len() as int));
            }
            index = index + 1;
        }
        self.stream_writes.clear();
        let tick = match runner.tick_with_timer_a(&mut self.stream_events, timer_tick.timer_a_delta) {
            Ok(tick) => tick,
            Err(_) => {
                self.runner = Some(runner);
                return Err(Error::InvalidStream);
            },
        };
        self.timing.timers.set_timer_b_value(runner.timer_b_value());
        self.tick_counter = self.tick_counter.saturating_add(1);
        runner.take_writes(&mut self.stream_writes);
        let ghost pre = *self;
        let mut k: usize = 0;
        while k < self.stream_writes.len()
            invariant
                k <= self.stream_writes@.len(),
                *self == (Player { stream_trace: self.stream_trace, ..pre }),
                self.stream_trace@.len() >= trace_before.len(),
                self.stream_trace@.subrange(0, trace_before.len() as int) == trace_before,
                pre.stream_trace@.len() >= trace_before.len(),
                self.stream_trace@.len() == pre.stream_trace@.len() + k,
                forall|j: int| 0 <= j < k ==> {
                    &&& (#[trigger] self.stream_trace@[pre.stream_trace@.len() + j]).address == self.stream_writes@[j].address
                    &&& self.stream_trace@[pre.stream_trace@.len() + j].value == self.stream_writes@[j].value
                },
            decreases self.stream_writes@.len() - k,
        {
            let write = self.stream_writes[k];
            let ghost before = self.stream_trace@;
            self.stream_trace.push(TraceWrite { time_us: timer_tick.time_us, tick: timer_tick.tick, address: write.address, value: write.value });
            assert(self.stream_trace@.subrange(0, trace_before.len() as int) =~= before.subrange(0, trace_before.len() as int));
            k = k + 1;
        }
        self.runner = Some(runner);
        Ok(tick)
    }

    /// One sequencer tick, reported.
    pub fn tick(&mut self) -> (result: Result<TickStatus, Error>)
        requires
            old(self).wf(),
        ensures
            final(self).wf(),
            final(self).sample_rate == old(self).sample_rate,
            final(self).song is Some == old(self).song is Some,
            final(self).runner is Some == old(self).runner is Some,
            final(self).pending_events == old(self).pending_events,
            final(self).position_samples == old(self).position_samples,
            final(self).stream_trace@.len() >= old(self).stream_trace@.len(),
            final(self).stream_trace@.subrange(0, old(self).stream_trace@.len() as int) == old(self).stream_trace@,
            old(self).runner is None ==> result == Ok::<TickStatus, Error>(TickStatus { ended: true, looped: false, writes: 0 })
                && *final(self) == *old(self),
            result is Err ==> result == Err::<TickStatus, Error>(Error::InvalidStream),
            old(self).runner is Some && result is Ok ==> final(self).tick_counter == (if old(self).tick_counter == u64::MAX {
                u64::MAX
            } else {
                (old(self).tick_counter + 1) as u64
            }),
            result matches Ok(t) ==> (old(self).runner is Some
                ==> tick_traced(*old(self), *final(self), (SongTick { ended: t.ended, looped: t.looped, writes: t.writes }))),
    {
        match self.advance_tick() {
            Ok(tick) => Ok(TickStatus { ended: tick.ended, looped: tick.looped, writes: tick.writes }),
            Err(error) => Err(error),
        }
    }
}


impl Player {
    /// Runs one sequencer tick and queues its register writes as driver
    /// events, one per driver time (timer A times, then timer B's), placed
    /// on the output frame their time falls in; writes of a time already
    /// queued join that event. The last event carries the display state
    /// and whether the song ended. A stream that fails while playing ends
    /// the song.
    pub fn queue_next_tick_events(&mut self)
        requires
            old(self).wf(),
        ensures
            final(self).wf(),
            final(self).sample_rate == old(self).sample_rate,
            final(self).song is Some == old(self).song is Some,
            final(self).chip is Some == old(self).chip is Some,
            final(self).output_samples == old(self).output_samples,
            final(self).generated_output_frame == old(self).generated_output_frame,
            final(self).scheduled_output_frame >= old(self).scheduled_output_frame,
            final(self).pending_events@.len() >= old(self).pending_events@.len(),
            final(self).position_samples == old(self).position_samples,
            old(self).sequencer_ended ==> *final(self) == *old(self),
            !old(self).sequencer_ended && final(self).sequencer_ended ==> final(self).end_tail_frames == END_TAIL_FRAMES
                && final(self).pending_events@ == old(self).pending_events@,
            !old(self).sequencer_ended && !final(self).sequencer_ended ==> {
                &&& final(self).pending_events@.len() >= 1
                &&& forall|i: int| 0 <= i < old(self).pending_events@.len() - 1
                    ==> #[trigger] final(self).pending_events@[i] == old(self).pending_events@[i]
                &&& final(self).pending_events@.last().snapshot matches Some(rows)
                    && rows@ == rows_after_events(old(self).channel_snapshots@, final(self).stream_events@)
            },
    {
        if self.sequencer_ended {
            return;
        }
        let trace_start = self.stream_trace.len();
        let tick = match self.advance_tick() {
            Ok(tick) => tick,
            Err(_) => {
                self.sequencer_ended = true;
                self.end_tail_frames = END_TAIL_FRAMES;
                return;
            },
        };
        let visual_snapshot = channel_snapshot_after_events(self.channel_snapshots, self.stream_events.as_slice());
        let mut new_writes = self.stream_trace.split_off(trace_start);
        let count = self.driver_timer_times.len();
        let mut write_index: usize = 0;
        let mut event_index: usize = 0;
        let ghost pre = *self;
        while event_index < count
            invariant
                count == self.driver_timer_times@.len(),
                event_index <= count,
                write_index <= new_writes@.len(),
                self.wf(),
                *self == (Player {
                    pending_events: self.pending_events,
                    scheduled_output_frame: self.scheduled_output_frame,
                    scheduled_time_us: self.scheduled_time_us,
                    ..pre
                }),
                self.scheduled_output_frame >= pre.scheduled_output_frame,
                self.pending_events@.len() >= pre.pending_events@.len(),
                pre.pending_events@ == old(self).pending_events@,
                pre.channel_snapshots == old(self).channel_snapshots,
                visual_snapshot@ == rows_after_events(pre.channel_snapshots@, pre.stream_events@),
                forall|i: int| 0 <= i < pre.pending_events@.len() - 1
                    ==> #[trigger] self.pending_events@[i] == pre.pending_events@[i],
                event_index > 0 ==> self.pending_events@.len() >= 1,
                event_index > 0 && event_index == count ==> self.pending_events@.last().snapshot == Some(visual_snapshot),
            decreases count - event_index,
        {
            let time_us = self.driver_timer_times[event_index];
            let mut writes: Vec<TraceWrite> = Vec::new();
            while write_index < new_writes.len() && new_writes[write_index].time_us == time_us
                invariant
                    write_index <= new_writes@.len(),
                decreases new_writes@.len() - write_index,
            {
                writes.push(new_writes[write_index]);
                write_index = write_index + 1;
            }
            let delta = frame_delta(time_us, self.scheduled_time_us, self.sample_rate);
            self.scheduled_output_frame = self.scheduled_output_frame.saturating_add(delta);
            self.scheduled_time_us = time_us;
            let last = event_index + 1 == count;
            let queued = self.pending_events.len();
            if queued > 0 && self.pending_events[queued - 1].time_us == time_us {
                let ghost before = self.pending_events@;
                let mut previous = self.pending_events.pop_back().unwrap();
                previous.writes.append(&mut writes);
                if last {
                    previous.ended = tick.ended;
                    previous.snapshot = Some(visual_snapshot);
                }
                self.pending_events.push_back(previous);
                assert(self.pending_events@ =~= before.update(before.len() - 1, previous));
                event_index = event_index + 1;
                continue;
            }
            self.pending_events.push_back(DriverEvent {
                frame: self.scheduled_output_frame,
                time_us,
                writes,
                ended: last && tick.ended,
                snapshot: if last { Some(visual_snapshot) } else { None },
            });
            event_index = event_index + 1;
        }
        if count == 0 {
            self.pending_events.push_back(DriverEvent {
                frame: self.scheduled_output_frame,
                time_us: self.scheduled_time_us,
                writes: new_writes,
                ended: tick.ended,
                snapshot: Some(visual_snapshot),
            });
        } else if write_index < new_writes.len() {
            let rest = new_writes.split_off(write_index);
            self.pending_events.push_back(DriverEvent {
                frame: self.scheduled_output_frame,
                time_us: self.scheduled_time_us,
                writes: rest,
                ended: tick.ended,
                snapshot: Some(visual_snapshot),
            });
        }
    }

    /// Applies a driver event: its writes (each after its wait), its
    /// display state and the song's end (which starts the output tail).
    pub fn apply_driver_event(&mut self, event: DriverEvent)
        requires
            old(self).wf(),
        ensures
            final(self).wf(),
            final(self).sample_rate == old(self).sample_rate,
            final(self).song is Some == old(self).song is Some,
            final(self).chip is Some == old(self).chip is Some,
            final(self).runner == old(self).runner,
            final(self).output_samples == old(self).output_samples,
            final(self).pending_events == old(self).pending_events,
            final(self).generated_output_frame == old(self).generated_output_frame,
            final(self).sequencer_ended == (old(self).sequencer_ended || event.ended),
            final(self).position_samples == old(self).position_samples,
            event.ended ==> final(self).end_tail_frames == END_TAIL_FRAMES,
            !event.ended ==> final(self).end_tail_frames == old(self).end_tail_frames,
            final(self).channel_snapshots == (match event.snapshot {
                Some(snapshot) => snapshot,
                None => old(self).channel_snapshots,
            }),
    {
        let mut index: usize = 0;
        while index < event.writes.len()
            invariant
                index <= event.writes@.len(),
                chip_work(*old(self), *self),
            decreases event.writes@.len() - index,
        {
            let write = event.writes[index];
            self.apply_startup_write(write.address, write.value);
            index = index + 1;
        }
        match event.snapshot {
            Some(snapshot) => {
                self.channel_snapshots = snapshot;
            },
            None => {},
        }
        if event.ended {
            self.sequencer_ended = true;
            self.end_tail_frames = END_TAIL_FRAMES;
        }
    }

    /// Renders `frame_count` frames of chip output (the frames rendered
    /// during register waits first) onto the output queue.
    pub fn render_output_block(&mut self, frame_count: usize)
        requires
            old(self).wf(),
        ensures
            final(self).wf(),
            final(self).sample_rate == old(self).sample_rate,
            final(self).song is Some == old(self).song is Some,
            final(self).chip is Some == old(self).chip is Some,
            final(self).runner == old(self).runner,
            final(self).pending_events == old(self).pending_events,
            final(self).sequencer_ended == old(self).sequencer_ended,
            final(self).end_tail_frames == old(self).end_tail_frames,
            final(self).generated_output_frame == old(self).generated_output_frame,
            final(self).position_samples == old(self).position_samples,
            final(self).output_samples@.len() == old(self).output_samples@.len() + frame_count,
            final(self).output_samples@.subrange(0, old(self).output_samples@.len() as int) == old(self).output_samples@,
            old(self).chip is None ==> forall|i: int| old(self).output_samples@.len() <= i < final(self).output_samples@.len()
                ==> #[trigger] final(self).output_samples@[i] == [0i32, 0],
    {
        if frame_count == 0 {
            assert(self.output_samples@.subrange(0, self.output_samples@.len() as int) =~= self.output_samples@);
            return;
        }
        self.render_block = vec![[0i32; 2]; frame_count];
        match self.chip.take() {
            Some(mut chip) => {
                chip.render_with_prefill(self.render_block.as_mut_slice(), &mut self.wait_samples);
                self.chip = Some(chip);
            },
            None => {},
        }
        let ghost before = self.output_samples@;
        let ghost pre = *self;
        let mut index: usize = 0;
        while index < frame_count
            invariant
                index <= frame_count,
                *self == (Player { output_samples: self.output_samples, ..pre }),
                pre.wf(),
                self.render_block@.len() == frame_count,
                self.output_samples@.len() == before.len() + index,
                self.output_samples@.subrange(0, before.len() as int) == before,
                old(self).chip is None ==> forall|i: int| 0 <= i < frame_count ==> #[trigger] self.render_block@[i] == [0i32, 0],
                old(self).chip is None ==> forall|i: int| before.len() <= i < self.output_samples@.len()
                    ==> #[trigger] self.output_samples@[i] == [0i32, 0],
            decreases frame_count - index,
        {
            let frame = self.render_block[index];
            let ghost previous = self.output_samples@;
            self.output_samples.push_back(frame);
            assert(self.output_samples@.subrange(0, before.len() as int) =~= previous.subrange(0, before.len() as int));
            index = index + 1;
        }
    }
}


impl Player {
    /// Renders until `needed` output frames are queued: queued driver
    /// events are applied at their frames (ticking the sequencer when none
    /// is queued), and after the song's end the tail is rendered once the
    /// events run out. Fewer frames are queued only when the song has ended
    /// with its tail rendered; should `RENDER_FUEL` rounds pass first, the
    /// rest is rendered from the chip as it stands.
    pub fn ensure_output_samples(&mut self, needed: usize)
        requires
            old(self).wf(),
        ensures
            final(self).wf(),
            final(self).sample_rate == old(self).sample_rate,
            final(self).song is Some == old(self).song is Some,
            final(self).chip is Some == old(self).chip is Some,
            final(self).output_samples@.len() >= old(self).output_samples@.len(),
            final(self).output_samples@.subrange(0, old(self).output_samples@.len() as int) == old(self).output_samples@,
            final(self).position_samples == old(self).position_samples,
            final(self).output_samples@.len() >= needed
                || (final(self).sequencer_ended && final(self).pending_events@.len() == 0 && final(self).end_tail_frames == 0),
    {
        let mut fuel: u64 = RENDER_FUEL;
        assert(self.output_samples@.subrange(0, old(self).output_samples@.len() as int) =~= old(self).output_samples@);
        while self.output_samples.len() < needed && fuel > 0
            invariant
                self.wf(),
                self.sample_rate == old(self).sample_rate,
                self.song is Some == old(self).song is Some,
                self.chip is Some == old(self).chip is Some,
                self.output_samples@.len() >= old(self).output_samples@.len(),
                self.output_samples@.subrange(0, old(self).output_samples@.len() as int) == old(self).output_samples@,
                self.position_samples == old(self).position_samples,
            ensures
                self.wf(),
                self.sample_rate == old(self).sample_rate,
                self.song is Some == old(self).song is Some,
                self.chip is Some == old(self).chip is Some,
                self.output_samples@.len() >= old(self).output_samples@.len(),
                self.output_samples@.subrange(0, old(self).output_samples@.len() as int) == old(self).output_samples@,
                self.position_samples == old(self).position_samples,
                self.output_samples@.len() >= needed || fuel == 0
                    || (self.sequencer_ended && self.pending_events@.len() == 0 && self.end_tail_frames == 0),
            decreases fuel,
        {
            fuel = fuel - 1;
            if self.pending_events.len() == 0 && !self.sequencer_ended {
                self.queue_next_tick_events();
            }
            if self.pending_events.len() == 0 {
                if self.sequencer_ended && self.end_tail_frames > 0 {
                    let missing = needed - self.output_samples.len();
                    let frame_count = if missing < self.end_tail_frames { missing } else { self.end_tail_frames };
                    let ghost before = self.output_samples@;
                    self.render_output_block(frame_count);
                    assert(self.output_samples@.subrange(0, old(self).output_samples@.len() as int)
                        =~= self.output_samples@.subrange(0, before.len() as int).subrange(0, old(self).output_samples@.len() as int));
                    self.generated_output_frame = self.generated_output_frame.saturating_add(frame_count as u64);
                    self.end_tail_frames = self.end_tail_frames - frame_count;
                }
                break;
            }
            let next_frame = self.pending_events[0].frame;
            if self.generated_output_frame < next_frame {
                let gap = next_frame - self.generated_output_frame;
                let frame_count = if gap < usize::MAX as u64 { gap as usize } else { usize::MAX };
                let ghost before = self.output_samples@;
                self.render_output_block(frame_count);
                assert(self.output_samples@.subrange(0, old(self).output_samples@.len() as int)
                    =~= self.output_samples@.subrange(0, before.len() as int).subrange(0, old(self).output_samples@.len() as int));
                self.generated_output_frame = self.generated_output_frame.saturating_add(frame_count as u64);
                continue;
            }
            let event = self.pending_events.pop_front().unwrap();
            self.apply_driver_event(event);
        }
        if self.output_samples.len() < needed {
            if fuel == 0 {
                let missing = needed - self.output_samples.len();
                let ghost before = self.output_samples@;
                self.render_output_block(missing);
                assert(self.output_samples@.subrange(0, old(self).output_samples@.len() as int)
                    =~= self.output_samples@.subrange(0, before.len() as int).subrange(0, old(self).output_samples@.len() as int));
            }
        }
    }

    /// Renders interleaved stereo output (left, right) for as many whole
    /// frames as `out` holds, advancing the play position by one per
    /// frame; a trailing odd slot is zeroed. Without a chip the output is
    /// silence and the position stays.
    pub fn render_pcm(&mut self, out: &mut [i32])
        requires
            old(self).wf(),
        ensures
            final(self).wf(),
            final(out)@.len() == old(out)@.len(),
            old(self).chip is None ==> (forall|i: int| 0 <= i < final(out)@.len() ==> #[trigger] final(out)@[i] == 0)
                && final(self).position_samples == old(self).position_samples,
            old(self).chip is Some ==> final(self).position_samples == (if old(self).position_samples + old(out)@.len() / 2 > u64::MAX {
                u64::MAX as int
            } else {
                old(self).position_samples + old(out)@.len() / 2
            }),
            old(out)@.len() % 2 == 1 ==> final(out)@[old(out)@.len() - 1] == 0,
            old(self).chip is Some ==> exists|filled: Seq<[i32; 2]>| #[trigger] pcm_taken(old(self).output_samples@, filled,
                final(self).output_samples@, final(out)@),
    {
        if self.chip.is_none() {
            let mut index: usize = 0;
            while index < out.len()
                invariant
                    index <= out@.len(),
                    out@.len() == old(out)@.len(),
                    forall|i: int| 0 <= i < index ==> #[trigger] out@[i] == 0,
                decreases out@.len() - index,
            {
                out[index] = 0;
                index = index + 1;
            }
            return;
        }
        let frame_count = out.len() / 2;
        self.ensure_output_samples(frame_count);
        let ghost filled = self.output_samples@;
        let take = if frame_count < self.output_samples.len() { frame_count } else { self.output_samples.len() };
        let mut taken = self.output_samples.split_off(take);
        std::mem::swap(&mut taken, &mut self.output_samples);
        assert(taken@ =~= filled.subrange(0, take as int));
        assert(self.output_samples@ =~= filled.subrange(take as int, filled.len() as int));
        let ghost start = self.position_samples;
        let ghost rest = self.output_samples@;
        let mut frame: usize = 0;
        while frame < frame_count
            invariant
                frame <= frame_count,
                frame_count == old(out)@.len() / 2,
                out@.len() == old(out)@.len(),
                self.wf(),
                self.position_samples == (if start + frame > u64::MAX { u64::MAX as int } else { start + frame }),
                self.output_samples@ == rest,
                taken@ == filled.subrange(0, take as int),
                take as int == (if frame_count < filled.len() { frame_count as int } else { filled.len() as int }),
                forall|i: int| 0 <= i < frame ==> {
                    &&& #[trigger] out@[2 * i] == (if i < filled.len() { filled[i][0] } else { 0 })
                    &&& out@[2 * i + 1] == (if i < filled.len() { filled[i][1] } else { 0 })
                },
            decreases frame_count - frame,
        {
            let sample: [i32; 2] = if frame < taken.len() { taken[frame] } else { [0, 0] };
            assert(2 * frame + 1 < out.len());
            let ghost prev = out@;
            out[2 * frame] = sample[0];
            out[2 * frame + 1] = sample[1];
            self.position_samples = self.position_samples.saturating_add(1);
            proof {
                assert forall|i: int| 0 <= i < frame + 1 implies {
                    &&& #[trigger] out@[2 * i] == (if i < filled.len() { filled[i][0] } else { 0 })
                    &&& out@[2 * i + 1] == (if i < filled.len() { filled[i][1] } else { 0 })
                } by {
                    if i == frame {
                        if i < filled.len() {
                            assert(taken@[i] == filled[i]);
                        }
                    } else {
                        assert(out@[2 * i] == prev[2 * i]);
                        assert(out@[2 * i + 1] == prev[2 * i + 1]);
                    }
                }
            }
            frame = frame + 1;
        }
        let ghost written = out@;
        if out.len() % 2 == 1 {
            let last = out.len() - 1;
            out[last] = 0;
        }
        proof {
            assert forall|i: int| 0 <= i < frame_count implies {
                &&& #[trigger] out@[2 * i] == (if i < filled.len() { filled[i][0] } else { 0 })
                &&& out@[2 * i + 1] == (if i < filled.len() { filled[i][1] } else { 0 })
            } by {
                assert(out@[2 * i] == written[2 * i]);
                assert(out@[2 * i + 1] == written[2 * i + 1]);
            }
            assert(out@.len() / 2 == frame_count);
            assert(filled.len() >= old(self).output_samples@.len());
            assert(filled.subrange(0, old(self).output_samples@.len() as int) == old(self).output_samples@);
            assert(self.output_samples@ == filled.subrange(take as int, filled.len() as int));
            assert(frames_taken(filled, out@) == take as int);
            assert forall|i: int| 0 <= i < out@.len() / 2 implies #[trigger] pcm_frame_ok(filled, out@, i) by {
                assert(i < frame_count);
                assert(out@[2 * i] == written[2 * i]);
                assert(out@[2 * i + 1] == written[2 * i + 1]);
            }
            assert(pcm_samples(filled, out@));
            assert(pcm_taken(old(self).output_samples@, filled, self.output_samples@, out@));
        }
    }
}

} // verus!
