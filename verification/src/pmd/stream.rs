use vstd::prelude::*;
use super::channel::{ChannelKind, ChannelState, CommandState, EffectRequest, RegisterWrite, SequencerGlobals, initial_channel};
use super::commands::{CommandError, CommandOutcome, PartCursor, dispatch, dispatch_done};
use super::effects::{self, FrameUpdate, VoiceFrame};
use super::registers::{RegisterState, effect_ended, effect_started, effect_ticked, end_writes, registers_initial};
use super::timing::DEFAULT_TIMER_B;
use super::{MainLayout, ParsedSong};
use crate::visual::event_part;

verus! {

/// Something a part did during a tick, for display.
#[derive(Clone, Copy, Debug, PartialEq, Eq)]
pub enum PartEvent {
    Note { part: usize, kind: ChannelKind, value: u8, length: u8, masked: bool },
    Portamento { part: usize, kind: ChannelKind, length: u8 },
    KeyOff { part: usize, kind: ChannelKind },
    Frame { part: usize, kind: ChannelKind, state: VoiceFrame },
    Rhythm { part: usize, mask: u16, length: u8 },
    Ended { part: usize, kind: ChannelKind },
}

/// Why a part's stream could not be run.
#[derive(Clone, Copy, Debug, PartialEq, Eq, Structural)]
pub enum StreamError {
    InvalidPartOffset { part: usize, offset: usize },
    Truncated { part: usize, position: usize, needed: usize },
    InvalidJump { part: usize, target: usize },
    InvalidOperand { part: usize, opcode: u8, value: u8 },
    UnknownCommand { part: usize, opcode: u8 },
    ActionBudgetExceeded { part: usize, position: usize },
}

/// The stream error a command error of a part becomes.
pub open spec fn stream_error_of(part: usize, error: CommandError) -> StreamError {
    match error {
        CommandError::Truncated { position, needed } => StreamError::Truncated { part, position, needed },
        CommandError::InvalidJump { target } => StreamError::InvalidJump { part, target },
        CommandError::InvalidOperand { opcode, value } => StreamError::InvalidOperand { part, opcode, value },
        CommandError::UnknownOpcode { opcode } => StreamError::UnknownCommand { part, opcode },
    }
}

impl StreamError {
    pub fn from_command(part: usize, error: CommandError) -> (converted: Self)
        ensures
            converted == stream_error_of(part, error),
    {
        match error {
            CommandError::Truncated { position, needed } => StreamError::Truncated { part, position, needed },
            CommandError::InvalidJump { target } => StreamError::InvalidJump { part, target },
            CommandError::InvalidOperand { opcode, value } => StreamError::InvalidOperand { part, opcode, value },
            CommandError::UnknownOpcode { opcode } => StreamError::UnknownCommand { part, opcode },
        }
    }
}

/// How one part's tick went.
#[derive(Clone, Copy, Debug, PartialEq, Eq, Structural)]
pub struct PartTick {
    pub looped: bool,
    pub ended: bool,
}

/// The bounds the song-wide sequencer state keeps for the commands.
pub open spec fn globals_wf(g: SequencerGlobals) -> bool {
    &&& (g.fm_select == 0 || g.fm_select == 0x100)
    &&& 0 <= g.rhythm_mask <= 0xff
    &&& 0 <= g.rhythm_volume_down <= 0xff
    &&& 0 <= g.fm3_alg_fb <= 0xff
    &&& 0 <= g.psg_noise <= 0xff
    &&& forall|i: int| 0 <= i < 6 ==> 0 <= #[trigger] g.rhythm_data@[i] <= 0xff
}

/// One part of a song being played: where it stands in the stream, how
/// long the current note still holds, and its command state.
#[derive(Clone, Debug, PartialEq, Eq)]
pub struct PartRunner {
    pub part: usize,
    pub kind: ChannelKind,
    pub start: usize,
    pub program_offset: usize,
    pub position: usize,
    pub remaining: i32,
    pub ended: bool,
    pub allow_loop: bool,
    pub rhythm_table: Option<usize>,
    pub rhythm_position: Option<usize>,
    pub state: CommandState,
}

/// The offsets of extension parts a part's work area announces.
#[derive(Clone, Copy, Debug, PartialEq, Eq)]
pub enum ExternalOffsets {
    Fm3([u16; 3]),
    Ppz([u16; 8]),
}

/// The work area an extension part starts with.
pub open spec fn external_channel(kind: ChannelKind) -> ChannelState {
    let fresh = initial_channel(kind);
    ChannelState {
        keyoff_flag: -1i32,
        mdspd: -1i32,
        mdspd2: -1i32,
        mdc: -1i32,
        mdc2: -1i32,
        part_mask: (fresh.part_mask as u8 | (if kind is Fm { 0x20u8 } else { 0u8 })) as i32,
        ..fresh
    }
}

impl PartRunner {
    /// A runner is well formed when its command state is and belongs to its
    /// kind.
    pub open spec fn wf(&self) -> bool {
        &&& self.state.wf()
        &&& self.state.channel.kind == self.kind
    }

    /// A runner at the start of its stream, or an error when the stream does
    /// not reach the start.
    pub fn new(part: usize, kind: ChannelKind, start: usize, data_len: usize, program_offset: usize)
        -> (result: Result<Self, StreamError>)
        ensures
            start >= data_len ==> result == Err::<Self, StreamError>(StreamError::InvalidPartOffset { part, offset: start }),
            start < data_len ==> (result matches Ok(runner) && {
                &&& runner.wf()
                &&& runner.part == part && runner.kind == kind && runner.start == start
                &&& runner.program_offset == program_offset && runner.position == start
                &&& runner.remaining == 0 && !runner.ended && runner.allow_loop
                &&& runner.rhythm_table is None && runner.rhythm_position is None
                &&& runner.state.writes@.len() == 0 && runner.state.effect_requests@.len() == 0
                &&& runner.state.channel == initial_channel(kind)
            }),
    {
        if start >= data_len {
            return Err(StreamError::InvalidPartOffset { part, offset: start });
        }
        Ok(PartRunner {
            part,
            kind,
            start,
            program_offset,
            position: start,
            remaining: 0,
            ended: false,
            allow_loop: true,
            rhythm_table: None,
            rhythm_position: None,
            state: CommandState::new(kind),
        })
    }

    /// Back to the start of the stream with a fresh command state.
    pub fn reset(&mut self)
        ensures
            final(self).wf(),
            final(self).part == old(self).part && final(self).kind == old(self).kind,
            final(self).start == old(self).start && final(self).program_offset == old(self).program_offset,
            final(self).rhythm_table == old(self).rhythm_table,
            final(self).position == old(self).start,
            final(self).remaining == 0 && !final(self).ended && final(self).allow_loop,
            final(self).rhythm_position is None,
            final(self).state.writes@.len() == 0 && final(self).state.effect_requests@.len() == 0,
            final(self).state.channel == initial_channel(old(self).kind),
    {
        self.position = self.start;
        self.remaining = 0;
        self.ended = false;
        self.allow_loop = true;
        self.rhythm_position = None;
        self.state = CommandState::new(self.kind);
    }

    pub fn set_rhythm_table(&mut self, offset: usize)
        ensures
            *final(self) == (PartRunner { rhythm_table: Some(offset), ..*old(self) }),
    {
        self.rhythm_table = Some(offset);
    }

    pub fn set_allow_loop(&mut self, allow: bool)
        ensures
            *final(self) == (PartRunner { allow_loop: allow, ..*old(self) }),
    {
        self.allow_loop = allow;
    }

    /// Restarts the runner as an extension part at `start`: it waits one
    /// tick, its key-off and modulation delays are off and an FM extension
    /// part starts masked.
    pub fn initialize_external(&mut self, start: usize, data_len: usize) -> (result: Result<(), StreamError>)
        requires
            old(self).wf(),
        ensures
            final(self).wf(),
            start >= data_len ==> result == Err::<(), StreamError>(StreamError::InvalidPartOffset { part: old(self).part, offset: start })
                && *final(self) == *old(self),
            start < data_len ==> result is Ok && {
                &&& final(self).part == old(self).part && final(self).kind == old(self).kind
                &&& final(self).program_offset == old(self).program_offset
                &&& final(self).rhythm_table == old(self).rhythm_table
                &&& final(self).start == start && final(self).position == start
                &&& final(self).remaining == 1 && !final(self).ended && final(self).allow_loop
                &&& final(self).rhythm_position is None
                &&& final(self).state.channel == external_channel(old(self).kind)
                &&& final(self).state.writes@.len() == 0 && final(self).state.effect_requests@.len() == 0
            },
    {
        if start >= data_len {
            return Err(StreamError::InvalidPartOffset { part: self.part, offset: start });
        }
        self.start = start;
        self.position = start;
        self.remaining = 1;
        self.ended = false;
        self.allow_loop = true;
        self.rhythm_position = None;
        self.state = CommandState::new(self.kind);
        self.state.channel.keyoff_flag = -1;
        self.state.channel.mdspd = -1;
        self.state.channel.mdspd2 = -1;
        self.state.channel.mdc = -1;
        self.state.channel.mdc2 = -1;
        let mask_bits: u8 = match self.kind {
            ChannelKind::Fm => 0x20,
            _ => 0,
        };
        self.state.channel.part_mask = (self.state.channel.part_mask as u8 | mask_bits) as i32;
        Ok(())
    }

    /// The extension part offsets an FM part (1 to 3) or the ADPCM part
    /// announces in its work area.
    pub fn external_offsets(&self) -> (offsets: Option<ExternalOffsets>)
        ensures
            offsets == (if self.part <= 2 {
                Some(ExternalOffsets::Fm3(self.state.channel.fm3_part_offsets))
            } else if self.part == 9 {
                Some(ExternalOffsets::Ppz(self.state.channel.external_part_offsets))
            } else {
                None
            }),
    {
        if self.part <= 2 {
            Some(ExternalOffsets::Fm3(self.state.channel.fm3_part_offsets))
        } else if self.part == 9 {
            Some(ExternalOffsets::Ppz(self.state.channel.external_part_offsets))
        } else {
            None
        }
    }

    pub fn position(&self) -> (position: usize)
        ensures
            position == self.position,
    {
        self.position
    }

    pub fn ended(&self) -> (ended: bool)
        ensures
            ended == self.ended,
    {
        self.ended
    }

    pub fn channel(&self) -> (channel: &ChannelState)
        ensures
            *channel == self.state.channel,
    {
        &self.state.channel
    }
}

/// Where a part runs within a tick: SSG, FM bank 2, FM bank 1, the FM3
/// extension parts, rhythm, ADPCM, then the PPZ8 parts.
pub open spec fn part_rank(part: int) -> int {
    if 6 <= part <= 8 {
        part - 6
    } else if 3 <= part <= 5 {
        part
    } else if 0 <= part <= 2 {
        part + 6
    } else if 11 <= part <= 13 {
        part - 2
    } else if part == 10 {
        12
    } else if part == 9 {
        13
    } else if 14 <= part <= 21 {
        part
    } else {
        100 + part
    }
}

pub fn part_order(part: usize) -> (rank: usize)
    requires
        part <= usize::MAX - 100,
    ensures
        rank == part_rank(part as int),
{
    if 6 <= part && part <= 8 {
        part - 6
    } else if 3 <= part && part <= 5 {
        part
    } else if part <= 2 {
        part + 6
    } else if 11 <= part && part <= 13 {
        part - 2
    } else if part == 10 {
        12
    } else if part == 9 {
        13
    } else if 14 <= part && part <= 21 {
        part
    } else {
        100 + part
    }
}

/// The FM register bank a part's commands address.
pub open spec fn fm_select_of(part: usize, kind: ChannelKind) -> u16 {
    if (kind is Fm || kind is Ppz8) && 3 <= part <= 5 { 0x100 } else { 0 }
}

/// The FM channel (within its bank) a part's commands address.
pub open spec fn fm_channel_of(part: usize, kind: ChannelKind) -> u16 {
    if !(kind is Fm || kind is Ppz8) {
        0
    } else if part <= 2 {
        part as u16
    } else if 3 <= part <= 5 {
        (part - 3) as u16
    } else if 11 <= part <= 13 {
        2
    } else {
        0
    }
}

pub fn fm_select(part: usize, kind: ChannelKind) -> (bank: u16)
    ensures
        bank == fm_select_of(part, kind),
{
    match kind {
        ChannelKind::Fm | ChannelKind::Ppz8 => if 3 <= part && part <= 5 { 0x100 } else { 0 },
        _ => 0,
    }
}

pub fn fm_channel(part: usize, kind: ChannelKind) -> (channel: u16)
    ensures
        channel == fm_channel_of(part, kind),
        channel <= 2,
{
    match kind {
        ChannelKind::Fm | ChannelKind::Ppz8 => {
            if part <= 2 {
                part as u16
            } else if 3 <= part && part <= 5 {
                (part - 3) as u16
            } else if 11 <= part && part <= 13 {
                2
            } else {
                0
            }
        },
        _ => 0,
    }
}

/// The FM3 mode a part's slot settings ask for, with the song's record of
/// which FM3 parts use separate slot pitches: a part that keys only some
/// slots, or whose pitch LFO covers only some slots, needs the special mode
/// and is recorded; otherwise it is taken off the record, and the normal
/// mode returns once no part is recorded and the slot detunes are off.
pub open spec fn fm3_mode_request(part_bit: i32, channel: ChannelState, g: SequencerGlobals) -> (i32, u8) {
    let cleared = g.fm3_slot3_flag & !part_bit;
    let clear = (cleared, if cleared == 0 && g.fm3_slot_detune_flag != 1 { 0x3fu8 } else { 0x7fu8 });
    let set = (g.fm3_slot3_flag | part_bit, 0x7fu8);
    if channel.slot_mask & 0xf0 == 0 {
        clear
    } else if channel.slot_mask != 0xf0 {
        set
    } else if channel.volume_mask & 0x0f == 0 {
        clear
    } else if channel.lfoswi & 1 != 0 {
        set
    } else if channel.secondary_volume_mask & 0x0f == 0 {
        clear
    } else if channel.lfoswi & 0x10 != 0 {
        set
    } else {
        clear
    }
}

/// The record bit of an FM3 part (channel 3 itself and its three
/// extension parts).
pub open spec fn fm3_part_bit(part: usize) -> i32 {
    if part == 2 { 1 } else if part == 11 { 2 } else if part == 12 { 4 } else if part == 13 { 8 } else { 0 }
}

/// Updates the FM3 mode after a command that may change the slot settings
/// of an FM3 part, writing register 0x27 when the mode changes.
pub fn update_fm3_mode(
    part: usize,
    kind: ChannelKind,
    channel: &ChannelState,
    globals: &mut SequencerGlobals,
    mode: &mut u8,
    writes: &mut Vec<RegisterWrite>,
)
    ensures
        !((part == 2 || 11 <= part <= 13) && kind is Fm) ==> *final(globals) == *old(globals) && *final(mode) == *old(mode)
            && final(writes)@ == old(writes)@,
        (part == 2 || 11 <= part <= 13) && kind is Fm ==> {
            let (flag, requested) = fm3_mode_request(fm3_part_bit(part), *channel, *old(globals));
            &&& *final(globals) == (SequencerGlobals { fm3_slot3_flag: flag, ..*old(globals) })
            &&& *final(mode) == requested
            &&& final(writes)@ == (if requested != *old(mode) {
                old(writes)@.push(RegisterWrite { address: 0x27, value: requested & 0xcf })
            } else {
                old(writes)@
            })
        },
{
    let part_bit: i32 = match kind {
        ChannelKind::Fm => if part == 2 {
            1
        } else if part == 11 {
            2
        } else if part == 12 {
            4
        } else if part == 13 {
            8
        } else {
            return;
        },
        _ => return,
    };
    let set = channel.slot_mask & 0xf0 != 0 && (channel.slot_mask != 0xf0 || (channel.volume_mask & 0x0f != 0 && (
    channel.lfoswi & 1 != 0 || (channel.secondary_volume_mask & 0x0f != 0 && channel.lfoswi & 0x10 != 0))));
    let requested: u8 = if set {
        globals.fm3_slot3_flag = globals.fm3_slot3_flag | part_bit;
        0x7f
    } else {
        globals.fm3_slot3_flag = globals.fm3_slot3_flag & !part_bit;
        if globals.fm3_slot3_flag == 0 && globals.fm3_slot_detune_flag != 1 { 0x3f } else { 0x7f }
    };
    if requested != *mode {
        *mode = requested;
        writes.push(RegisterWrite { address: 0x27, value: requested & 0xcf });
    }
}


/// The part an error is reported for.
pub open spec fn error_part(e: StreamError) -> usize {
    match e {
        StreamError::InvalidPartOffset { part, .. } => part,
        StreamError::Truncated { part, .. } => part,
        StreamError::InvalidJump { part, .. } => part,
        StreamError::InvalidOperand { part, .. } => part,
        StreamError::UnknownCommand { part, .. } => part,
        StreamError::ActionBudgetExceeded { part, .. } => part,
    }
}

/// `after` is `before` with events of `part` added.
pub open spec fn events_extend(before: Seq<PartEvent>, after: Seq<PartEvent>, part: usize) -> bool {
    &&& before.len() <= after.len()
    &&& after.subrange(0, before.len() as int) == before
    &&& forall|i: int| before.len() <= i < after.len() ==> event_part(#[trigger] after[i]) == part
}

proof fn lemma_events_push(before: Seq<PartEvent>, after: Seq<PartEvent>, event: PartEvent, part: usize)
    requires
        events_extend(before, after, part),
        event_part(event) == part,
    ensures
        events_extend(before, after.push(event), part),
{
    assert(after.push(event).subrange(0, before.len() as int) =~= after.subrange(0, before.len() as int));
    assert forall|i: int| before.len() <= i < after.push(event).len() implies event_part(#[trigger] after.push(event)[i]) == part by {
        if i < after.len() {
            assert(after.push(event)[i] == after[i]);
        }
    }
}

proof fn lemma_events_chain(a: Seq<PartEvent>, b: Seq<PartEvent>, c: Seq<PartEvent>, part: usize)
    requires
        events_extend(a, b, part),
        events_extend(b, c, part),
    ensures
        events_extend(a, c, part),
{
    assert(c.subrange(0, a.len() as int) =~= c.subrange(0, b.len() as int).subrange(0, a.len() as int));
    assert forall|i: int| a.len() <= i < c.len() implies event_part(#[trigger] c[i]) == part by {
        if i < b.len() {
            assert(c.subrange(0, b.len() as int)[i] == c[i]);
            assert(b[i] == c[i]);
        }
    }
}

proof fn lemma_events_same(events: Seq<PartEvent>, part: usize)
    ensures
        events_extend(events, events, part),
{
    assert(events.subrange(0, events.len() as int) =~= events);
}

/// Commands change neither which part a runner plays nor where its
/// stream starts.
pub open spec fn same_part(a: PartRunner, b: PartRunner) -> bool {
    &&& b.part == a.part && b.kind == a.kind
    &&& b.start == a.start && b.program_offset == a.program_offset
    &&& b.allow_loop == a.allow_loop && b.rhythm_table == a.rhythm_table
}

/// The register state and writes one effect request gives.
pub open spec fn request_applied(r: RegisterState, request: EffectRequest) -> (RegisterState, Seq<RegisterWrite>) {
    match request {
        EffectRequest::Start { index, correction } => effect_started(r, index as int, correction),
        EffectRequest::Stop => (effect_ended(r), end_writes(r)),
    }
}

/// Effect requests applied in order: the register state after and the
/// writes they made.
pub open spec fn requests_applied(r: RegisterState, requests: Seq<EffectRequest>) -> (RegisterState, Seq<RegisterWrite>)
    decreases requests.len(),
{
    if requests.len() == 0 {
        (r, Seq::empty())
    } else {
        let before = requests_applied(r, requests.drop_last());
        let step = request_applied(before.0, requests.last());
        (step.0, before.1 + step.1)
    }
}

/// The state a part's command runs on: its own state on the part's FM
/// channel, with the song's shared state.
pub open spec fn command_input(r: PartRunner, globals: SequencerGlobals) -> CommandState {
    CommandState { globals, fm_channel: fm_channel_of(r.part, r.kind), ..r.state }
}

/// A part's command state with the song's shared state in it.
pub open spec fn with_globals(state: CommandState, globals: SequencerGlobals) -> CommandState {
    CommandState { globals, ..state }
}

/// Whether an event starts a sound of `part` that lasts `remaining` ticks:
/// a note, a portamento or a rhythm note of that length.
pub open spec fn starts_sound(event: PartEvent, part: usize, remaining: i32) -> bool {
    match event {
        PartEvent::Note { part: p, length, .. } => p == part && remaining == length as i32,
        PartEvent::Portamento { part: p, length, .. } => p == part && remaining == length as i32,
        PartEvent::Rhythm { part: p, length, .. } => p == part && remaining == length as i32,
        _ => false,
    }
}

/// Whether the events from `from` on hold the start of the sound the part
/// now waits on.
pub open spec fn sound_started(part: usize, f: PartRunner, from: int, events: Seq<PartEvent>) -> bool {
    exists|i: int| from <= i < events.len() && #[trigger] starts_sound(events[i], part, f.remaining)
}

/// A rhythm part's tick that reached a note: one `Rhythm` event of the
/// part, with its voice mask and the length byte that stands in the
/// stream just before the new read position of the rhythm pattern; the
/// part waits that many ticks.
pub open spec fn rhythm_note_read(o: PartRunner, f: PartRunner, data: Seq<u8>, before: Seq<PartEvent>, after: Seq<PartEvent>) -> bool {
    &&& after.len() == before.len() + 1
    &&& after.drop_last() == before
    &&& after.last() matches PartEvent::Rhythm { part, mask, length } && {
        &&& part == o.part
        &&& f.remaining == length as i32
        &&& f.rhythm_position matches Some(next) && 1 <= next <= data.len() && data[next - 1] == length
    }
}

impl PartRunner {
    /// Runs the command at `position` against the song's shared state and
    /// returns where the stream goes on.
    fn dispatch_at(&mut self, data: &mut [u8], globals: &mut SequencerGlobals, position: usize) -> (result: Result<usize, StreamError>)
        requires
            old(self).wf(),
            globals_wf(*old(globals)),
        ensures
            final(self).wf(),
            globals_wf(*final(globals)),
            *final(self) == (PartRunner { state: final(self).state, ..*old(self) }),
            final(self).state.globals == old(self).state.globals,
            result matches Err(e) ==> error_part(e) == old(self).part,
            position > old(data)@.len() ==> result == Err::<usize, StreamError>(StreamError::InvalidJump { part: old(self).part, target: position })
                && *final(self) == *old(self) && *final(globals) == *old(globals) && final(data)@ == old(data)@,
            position <= old(data)@.len() ==> exists|outcome: Result<CommandOutcome, CommandError>, bytes: Seq<u8>, end: int| {
                &&& #[trigger] dispatch_done(
                    with_globals(old(self).state, *old(globals)),
                    with_globals(final(self).state, *final(globals)),
                    old(data)@, position as int, bytes, end, outcome)
                &&& match outcome {
                    Ok(_) => result == Ok::<usize, StreamError>(end as usize),
                    Err(e) => result == Err::<usize, StreamError>(stream_error_of(old(self).part, e)),
                }
            },
    {
        let part = self.part;
        if position > data.len() {
            return Err(StreamError::InvalidJump { part, target: position });
        }
        let mut cursor = PartCursor::new(data);
        let _ = cursor.set_position(position);
        let ghost start_state = with_globals(self.state, *globals);
        let ghost start_bytes = cursor.bytes();
        std::mem::swap(&mut self.state.globals, globals);
        assert(self.state == start_state);
        let result = dispatch(&mut cursor, &mut self.state);
        let ghost end_state = self.state;
        std::mem::swap(&mut self.state.globals, globals);
        let end = cursor.position();
        let ghost end_bytes = cursor.bytes();
        proof {
            assert(end_state == with_globals(self.state, *globals));
            assert(dispatch_done(start_state, end_state, start_bytes, position as int, end_bytes, end as int, result));
        }
        match result {
            Ok(_) => {
                proof {
                    let witness: int = end as int;
                    assert(witness as usize == end);
                    assert(dispatch_done(start_state, end_state, start_bytes, position as int, end_bytes, witness, result));
                }
                Ok(end)
            },
            Err(error) => Err(StreamError::from_command(part, error)),
        }
    }

    /// Hands the writes and effect requests of the last command on.
    fn flush_commands(&mut self, writes: &mut Vec<RegisterWrite>, registers: &mut RegisterState)
        ensures
            *final(self) == (PartRunner { state: final(self).state, ..*old(self) }),
            final(self).state == (CommandState { writes: final(self).state.writes, effect_requests: final(self).state.effect_requests, ..old(self).state }),
            final(self).state.writes@.len() == 0 && final(self).state.effect_requests@.len() == 0,
            *final(registers) == requests_applied(*old(registers), old(self).state.effect_requests@).0,
            final(writes)@ == old(writes)@ + old(self).state.writes@
                + requests_applied(*old(registers), old(self).state.effect_requests@).1,
    {
        writes.append(&mut self.state.writes);
        let ghost requests = self.state.effect_requests@;
        let ghost base = writes@;
        let mut index: usize = 0;
        proof {
            assert(requests.subrange(0, 0) =~= Seq::<EffectRequest>::empty());
            assert(writes@ =~= base + requests_applied(*old(registers), requests.subrange(0, 0)).1);
        }
        while index < self.state.effect_requests.len()
            invariant
                index <= self.state.effect_requests@.len(),
                requests == self.state.effect_requests@,
                requests == old(self).state.effect_requests@,
                base == old(writes)@ + old(self).state.writes@,
                *self == (PartRunner { state: self.state, ..*old(self) }),
                self.state == (CommandState { writes: self.state.writes, ..old(self).state }),
                self.state.writes@.len() == 0,
                *registers == requests_applied(*old(registers), requests.subrange(0, index as int)).0,
                writes@ == base + requests_applied(*old(registers), requests.subrange(0, index as int)).1,
            decreases self.state.effect_requests@.len() - index,
        {
            let request = self.state.effect_requests[index];
            registers.apply_effect_request(request, writes);
            proof {
                assert(requests.subrange(0, index + 1).drop_last() =~= requests.subrange(0, index as int));
                assert(writes@ =~= base + requests_applied(*old(registers), requests.subrange(0, index + 1)).1);
            }
            index = index + 1;
        }
        proof {
            assert(requests.subrange(0, requests.len() as int) =~= requests);
        }
        self.state.effect_requests.clear();
    }

    /// Records a frame of the part's voice and writes its registers.
    fn emit_frame(
        &self,
        events: &mut Vec<PartEvent>,
        note: Option<u8>,
        update: FrameUpdate,
        writes: &mut Vec<RegisterWrite>,
        registers: &mut RegisterState,
        globals: &SequencerGlobals,
        ch3_mode: u8,
    )
        ensures
            final(events)@.len() == old(events)@.len() + 1,
            final(events)@.drop_last() == old(events)@,
            final(events)@.last() matches PartEvent::Frame { part, kind, .. } && part == self.part && kind == self.kind,
    {
        let mut state = effects::frame_with_update(&self.state.channel, self.remaining, update);
        if self.part == 2 || (11 <= self.part && self.part <= 13) {
            state.slot_detune = globals.fm3_slot_detune;
        }
        state.fm_volume_down = globals.fm_volume_down;
        state.ssg_volume_down = globals.ssg_volume_down;
        let event = PartEvent::Frame { part: self.part, kind: self.kind, state };
        registers.emit_frame(&event, note, state, globals.psg_noise, ch3_mode, writes);
        events.push(event);
        assert(events@.drop_last() =~= old(events)@);
    }
}


/// The most commands one part may run in a tick before its stream counts
/// as a command-only cycle.
pub const MAX_ACTIONS_PER_TICK: usize = 4096;

/// What every step of a tick keeps: a well-formed runner of the same
/// part, bounded song state, and events of that part only added.
pub open spec fn tick_kept(
    o: PartRunner,
    f: PartRunner,
    fg: SequencerGlobals,
    oe: Seq<PartEvent>,
    fe: Seq<PartEvent>,
) -> bool {
    &&& f.wf()
    &&& globals_wf(fg)
    &&& same_part(o, f)
    &&& events_extend(oe, fe, o.part)
}

/// Whether an `Ended` event of the runner's part was added.
pub open spec fn ended_reported(o: PartRunner, oe: Seq<PartEvent>, fe: Seq<PartEvent>) -> bool {
    exists|i: int| oe.len() <= i < fe.len() && fe[i] == (PartEvent::Ended { part: o.part, kind: o.kind })
}

impl PartRunner {
    /// Finishes the part at its end mark: it reports the end, keeps its
    /// voice running and writes a frame when an effect still needs one.
    fn finish(
        &mut self,
        globals: &mut SequencerGlobals,
        writes: &mut Vec<RegisterWrite>,
        events: &mut Vec<PartEvent>,
        registers: &mut RegisterState,
        timer_a_delta: u32,
        ch3_mode: u8,
    )
        requires
            old(self).wf(),
            globals_wf(*old(globals)),
        ensures
            final(self).wf(),
            globals_wf(*final(globals)),
            *final(self) == (PartRunner { state: final(self).state, ended: true, ..*old(self) }),
            final(self).state.writes == old(self).state.writes,
            events_extend(old(events)@, final(events)@, old(self).part),
            ended_reported(*old(self), old(events)@, final(events)@),
    {
        self.ended = true;
        self.state.channel.onkai = 255;
        let event = PartEvent::Ended { part: self.part, kind: self.kind };
        events.push(event);
        let ghost at = events@.len() - 1;
        proof {
            lemma_events_same(old(events)@, self.part);
            lemma_events_push(old(events)@, old(events)@, event, self.part);
        }
        assert(self.state.channel.wf());
        assert(self.state.wf());
        let update = effects::advance_voice_with_timer_a(&mut self.state.channel, globals, timer_a_delta);
        if update.force_volume_write || update.force_pitch_write || update.force_key_on {
            let ghost before = events@;
            self.emit_frame(events, None, update, writes, registers, globals, ch3_mode);
            proof {
                assert(events@ == before.push(events@.last()));
                lemma_events_push(old(events)@, before, events@.last(), self.part);
                assert(events@[at] == before[at]);
            }
        }
        assert(self.state.channel.wf());
        assert(self.state.wf());
        assert(events@[at] == event);
    }
}


impl PartRunner {
    /// Plays the note at the read position: the note byte, its length, an
    /// optional tie mark; a masked part only records the note.
    fn play_note(
        &mut self,
        data: &[u8],
        globals: &mut SequencerGlobals,
        writes: &mut Vec<RegisterWrite>,
        events: &mut Vec<PartEvent>,
        registers: &mut RegisterState,
        timer_a_delta: u32,
        ch3_mode: u8,
        looped: bool,
    ) -> (result: Result<PartTick, StreamError>)
        requires
            old(self).wf(),
            globals_wf(*old(globals)),
            !old(self).ended,
            old(self).position < data@.len(),
        ensures
            tick_kept(*old(self), *final(self), *final(globals), old(events)@, final(events)@),
            !final(self).ended,
            result matches Err(e) ==> error_part(e) == old(self).part,
            result is Ok ==> result == Ok::<PartTick, StreamError>(PartTick { looped, ended: false }),
            result is Ok ==> 0 <= final(self).remaining <= 255,
            result is Ok ==> sound_started(old(self).part, *final(self), old(events)@.len() as int, final(events)@),
    {
        proof {
            lemma_events_same(old(events)@, self.part);
        }
        let note = data[self.position];
        self.position = self.position + 1;
        let length_position = self.position;
        if length_position >= data.len() {
            return Err(StreamError::Truncated { part: self.part, position: length_position, needed: 1 });
        }
        let length = data[length_position];
        self.position = self.position + 1;
        let gate_continues = self.position < data.len() && data[self.position] == 0xc1;
        if gate_continues {
            self.position = self.position + 1;
        }
        self.remaining = length as i32;
        self.state.channel.key_on_count = self.state.channel.key_on_count.wrapping_add(1);
        let masked = self.state.channel.part_mask != 0;
        if !masked {
            effects::start_note_with_timer_a(&mut self.state.channel, globals, note, timer_a_delta);
            if gate_continues {
                self.state.channel.qdat = 0;
            } else {
                effects::calculate_gate(&mut self.state.channel, globals, length as i32);
            }
            if self.position < data.len() && data[self.position] == 0xfb {
                self.state.channel.keyoff_flag = 2;
            } else if self.state.channel.onkai == 255 {
                self.state.channel.keyoff_flag = -1;
            } else {
                self.state.channel.keyoff_flag = 0;
            }
            if self.state.channel.vol_push != 0 && self.state.channel.onkai != 255 {
                globals.volume_push_flag = globals.volume_push_flag.wrapping_sub(1);
                if globals.volume_push_flag != 0 {
                    globals.volume_push_flag = 0;
                    self.state.channel.vol_push = 0;
                }
            }
        } else {
            self.state.channel.keyoff_flag = -1;
        }
        globals.tie_flag = 0;
        globals.volume_push_flag = 0;
        let event = PartEvent::Note { part: self.part, kind: self.kind, value: note, length, masked };
        let ghost before = events@;
        events.push(event);
        proof {
            lemma_events_push(old(events)@, before, event, self.part);
            assert(starts_sound(events@[before.len() as int], old(self).part, self.remaining));
        }
        if !masked {
            let ghost pushed = events@;
            self.emit_frame(
                events,
                Some(note),
                FrameUpdate { force_volume_write: false, force_pitch_write: false, force_key_on: false },
                writes,
                registers,
                globals,
                ch3_mode,
            );
            proof {
                assert(events@ == pushed.push(events@.last()));
                lemma_events_push(old(events)@, pushed, events@.last(), self.part);
                assert(events@[before.len() as int] == pushed[before.len() as int]);
                assert(starts_sound(events@[before.len() as int], old(self).part, self.remaining));
            }
        }
        Ok(PartTick { looped, ended: false })
    }

    /// Starts the portamento whose command just ran, up to the next note.
    fn play_portamento(
        &mut self,
        data: &[u8],
        globals: &mut SequencerGlobals,
        writes: &mut Vec<RegisterWrite>,
        events: &mut Vec<PartEvent>,
        registers: &mut RegisterState,
        timer_a_delta: u32,
        ch3_mode: u8,
        opcode: u8,
        continues: bool,
        looped: bool,
    ) -> (result: Result<PartTick, StreamError>)
        requires
            old(self).wf(),
            globals_wf(*old(globals)),
            !old(self).ended,
        ensures
            tick_kept(*old(self), *final(self), *final(globals), old(events)@, final(events)@),
            !final(self).ended,
            result matches Err(e) ==> error_part(e) == old(self).part,
            result is Ok ==> result == Ok::<PartTick, StreamError>(PartTick { looped, ended: false }),
            result is Ok ==> sound_started(old(self).part, *final(self), old(events)@.len() as int, final(events)@),
    {
        proof {
            lemma_events_same(old(events)@, self.part);
        }
        let length = self.state.channel.porta_length;
        if length <= 0 {
            return Err(StreamError::InvalidOperand { part: self.part, opcode, value: 0 });
        }
        if self.state.channel.part_mask == 0 {
            let from = self.state.channel.porta_from;
            let to = self.state.channel.porta_to;
            let from = if 0 <= from && from <= 255 { from as u8 } else { 0 };
            let to = if 0 <= to && to <= 255 { to as u8 } else { 0 };
            match effects::start_portamento_with_timer_a(&mut self.state.channel, globals, from, to, length, timer_a_delta) {
                Ok(()) => {},
                Err(()) => {
                    return Err(StreamError::InvalidOperand { part: self.part, opcode, value: 0 });
                },
            }
            if !continues {
                effects::calculate_gate(&mut self.state.channel, globals, length);
            }
        }
        let held: u8 = if length > 255 { 255 } else { length as u8 };
        self.remaining = held as i32;
        self.state.channel.key_on_count = self.state.channel.key_on_count.wrapping_add(1);
        if self.state.channel.vol_push != 0 && self.state.channel.onkai != 255 {
            globals.volume_push_flag = globals.volume_push_flag.wrapping_sub(1);
            if globals.volume_push_flag != 0 {
                globals.volume_push_flag = 0;
                self.state.channel.vol_push = 0;
            }
        }
        self.state.channel.keyoff_flag = if self.position < data.len() && data[self.position] == 0xfb { 2 } else { 0 };
        globals.tie_flag = 0;
        globals.volume_push_flag = 0;
        let event = PartEvent::Portamento { part: self.part, kind: self.kind, length: held };
        let ghost before = events@;
        events.push(event);
        proof {
            lemma_events_push(old(events)@, before, event, self.part);
            assert(starts_sound(events@[before.len() as int], old(self).part, self.remaining));
        }
        if self.state.channel.part_mask == 0 {
            let ghost pushed = events@;
            self.emit_frame(
                events,
                None,
                FrameUpdate { force_volume_write: true, force_pitch_write: true, force_key_on: true },
                writes,
                registers,
                globals,
                ch3_mode,
            );
            proof {
                assert(events@ == pushed.push(events@.last()));
                lemma_events_push(old(events)@, pushed, events@.last(), self.part);
                assert(events@[before.len() as int] == pushed[before.len() as int]);
                assert(starts_sound(events@[before.len() as int], old(self).part, self.remaining));
            }
        }
        Ok(PartTick { looped, ended: false })
    }
}


/// The commands after which an FM3 part's slot settings may have changed.
pub open spec fn changes_fm3_slots(opcode: u8) -> bool {
    opcode == 0xbe || opcode == 0xba || opcode == 0xf1 || opcode == 0xcf || opcode == 0xc8 || opcode == 0xc7 || opcode == 0xc5
}

impl PartRunner {
    /// Runs the command at the read position, hands its output on, loads
    /// the voice of an FM program change and updates the FM3 mode.
    fn run_command(
        &mut self,
        data: &mut [u8],
        globals: &mut SequencerGlobals,
        writes: &mut Vec<RegisterWrite>,
        registers: &mut RegisterState,
        ch3_mode: &mut u8,
        opcode: u8,
    ) -> (result: Result<(), StreamError>)
        requires
            old(self).wf(),
            globals_wf(*old(globals)),
            !old(self).ended,
        ensures
            final(self).wf(),
            globals_wf(*final(globals)),
            same_part(*old(self), *final(self)),
            !final(self).ended,
            result matches Err(e) ==> error_part(e) == old(self).part,
            old(self).position > old(data)@.len() ==> result == Err::<(), StreamError>(
                StreamError::InvalidJump { part: old(self).part, target: old(self).position }),
            old(self).position <= old(data)@.len() ==> exists|outcome: Result<CommandOutcome, CommandError>, after: CommandState, bytes: Seq<u8>, end: int| {
                &&& #[trigger] dispatch_done(command_input(*old(self), *old(globals)), after, old(data)@, old(self).position as int, bytes, end, outcome)
                &&& match outcome {
                    Ok(_) => result is Ok && final(self).position == end as usize,
                    Err(e) => result == Err::<(), StreamError>(stream_error_of(old(self).part, e)),
                }
            },
    {
        self.state.globals.fm_select = fm_select(self.part, self.kind);
        self.state.fm_channel = fm_channel(self.part, self.kind);
        proof {
            assert(with_globals(self.state, *old(globals)) == command_input(*old(self), *old(globals)));
        }
        let ghost input = command_input(*old(self), *old(globals));
        let dispatched = self.dispatch_at(data, globals, self.position);
        let ghost chosen: (Result<CommandOutcome, CommandError>, Seq<u8>, int) = choose|o: Result<CommandOutcome, CommandError>, b: Seq<u8>, e: int| {
            &&& dispatch_done(input, with_globals(self.state, *globals), old(data)@, old(self).position as int, b, e, o)
            &&& match o {
                Ok(_) => dispatched == Ok::<usize, StreamError>(e as usize),
                Err(err) => dispatched == Err::<usize, StreamError>(stream_error_of(old(self).part, err)),
            }
        };
        proof {
            if old(self).position <= old(data)@.len() {
                assert(dispatch_done(input, with_globals(self.state, *globals), old(data)@, old(self).position as int, chosen.1, chosen.2, chosen.0));
            }
        }
        let end = match dispatched {
            Ok(end) => end,
            Err(error) => {
                return Err(error);
            },
        };
        self.position = end;
        self.flush_commands(writes, registers);
        if opcode == 0xff && self.kind == ChannelKind::Fm && self.state.channel.part_mask == 0 {
            let shared = self.part == 2 || (11 <= self.part && self.part <= 13);
            let fm3_alg_fb = if shared { Some(globals.fm3_alg_fb) } else { None };
            match registers.program_change(self.part, &mut self.state.channel, data, self.program_offset, fm3_alg_fb, writes) {
                Some(value) => {
                    globals.fm3_alg_fb = value;
                },
                None => {},
            }
        }
        if opcode == 0xbe || opcode == 0xba || opcode == 0xf1 || opcode == 0xcf || opcode == 0xc8 || opcode == 0xc7 || opcode == 0xc5 {
            update_fm3_mode(self.part, self.kind, &self.state.channel, globals, ch3_mode, writes);
        }
        Ok(())
    }
}


impl PartRunner {
    /// The rhythm part's step: its stream indexes rhythm subsequences
    /// through the song's rhythm table; a subsequence holds rhythm commands
    /// and `mask, length` entries (the mask's high byte only when its top bit
    /// is set) up to `0xff`.
    #[verifier::rlimit(60)]
    fn tick_rhythm(
        &mut self,
        data: &mut [u8],
        globals: &mut SequencerGlobals,
        writes: &mut Vec<RegisterWrite>,
        events: &mut Vec<PartEvent>,
        registers: &mut RegisterState,
    ) -> (result: Result<PartTick, StreamError>)
        requires
            old(self).wf(),
            globals_wf(*old(globals)),
            !old(self).ended,
        ensures
            tick_kept(*old(self), *final(self), *final(globals), old(events)@, final(events)@),
            result matches Ok(t) ==> t.ended == final(self).ended,
            result matches Ok(t) && t.ended ==> ended_reported(*old(self), old(events)@, final(events)@),
            !(result matches Ok(t) && t.ended) ==> !final(self).ended,
            result matches Err(e) ==> error_part(e) == old(self).part,
            result matches Ok(t) && !t.ended ==> rhythm_note_read(*old(self), *final(self), final(data)@, old(events)@, final(events)@),
            result matches Ok(t) && !t.ended ==> sound_started(old(self).part, *final(self), old(events)@.len() as int, final(events)@),
    {
        proof {
            lemma_events_same(old(events)@, self.part);
        }
        let mut looped = false;
        let mut count: usize = 0;
        while count < MAX_ACTIONS_PER_TICK
            invariant
                tick_kept(*old(self), *self, *globals, old(events)@, events@),
                !self.ended,
                events@ == old(events)@,
            decreases MAX_ACTIONS_PER_TICK - count,
        {
            count = count + 1;
            match self.rhythm_position {
                Some(entry) => {
                    if entry >= data.len() {
                        return Err(StreamError::Truncated { part: self.part, position: entry, needed: 1 });
                    }
                    let first = data[entry];
                    if first == 0xff {
                        self.rhythm_position = None;
                        continue;
                    }
                    if first & 0xc0 == 0xc0 {
                        let end = match self.dispatch_at(data, globals, entry) {
                            Ok(end) => end,
                            Err(error) => {
                                return Err(error);
                            },
                        };
                        self.rhythm_position = Some(end);
                        self.flush_commands(writes, registers);
                        continue;
                    }
                    let mut next = entry + 1;
                    let mask: u16 = if first & 0x80 != 0 {
                        if next >= data.len() {
                            return Err(StreamError::Truncated { part: self.part, position: next, needed: 1 });
                        }
                        let low = data[next];
                        next = next + 1;
                        (((first as u16) << 8u16) | low as u16) & 0x3fff
                    } else {
                        0
                    };
                    if next >= data.len() {
                        return Err(StreamError::Truncated { part: self.part, position: next, needed: 1 });
                    }
                    let length = data[next];
                    let ghost length_at = next;
                    next = next + 1;
                    self.rhythm_position = Some(next);
                    self.remaining = length as i32;
                    self.state.channel.key_on_count = self.state.channel.key_on_count.wrapping_add(1);
                    globals.tie_flag = 0;
                    globals.volume_push_flag = 0;
                    registers.emit_rhythm_effect(mask, writes);
                    let event = PartEvent::Rhythm { part: self.part, mask, length };
                    let ghost before = events@;
                    events.push(event);
                    proof {
                        lemma_events_push(old(events)@, before, event, self.part);
                        assert(data@[length_at as int] == length);
                        assert(events@[before.len() as int] == event);
                        assert(starts_sound(events@[before.len() as int], old(self).part, self.remaining));
                    }
                    return Ok(PartTick { looped, ended: false });
                },
                None => {},
            }
            if self.position >= data.len() {
                return Err(StreamError::Truncated { part: self.part, position: self.position, needed: 1 });
            }
            let value = data[self.position];
            if value == 0x80 {
                self.state.channel.loop_check = 3;
                if self.allow_loop {
                    match self.state.channel.part_loop {
                        Some(part_loop) => {
                            self.position = part_loop;
                            self.state.channel.loop_check = 1;
                            looped = true;
                            continue;
                        },
                        None => {},
                    }
                }
                self.ended = true;
                let event = PartEvent::Ended { part: self.part, kind: self.kind };
                let ghost before = events@;
                events.push(event);
                proof {
                    lemma_events_push(old(events)@, before, event, self.part);
                    assert(events@[events@.len() - 1] == event);
                }
                return Ok(PartTick { looped, ended: true });
            }
            if value > 0x80 {
                let end = match self.dispatch_at(data, globals, self.position) {
                    Ok(end) => end,
                    Err(error) => {
                        return Err(error);
                    },
                };
                self.position = end;
                writes.append(&mut self.state.writes);
                continue;
            }
            let table = match self.rhythm_table {
                Some(table) => table,
                None => {
                    return Err(StreamError::InvalidJump { part: self.part, target: self.position });
                },
            };
            let step = value as usize * 2;
            if table > usize::MAX - step {
                return Err(StreamError::InvalidJump { part: self.part, target: table });
            }
            let entry = table + step;
            if entry >= data.len() {
                return Err(StreamError::Truncated { part: self.part, position: entry, needed: 2 });
            }
            let low = data[entry];
            let high_position = entry + 1;
            if high_position >= data.len() {
                return Err(StreamError::Truncated { part: self.part, position: entry, needed: 2 });
            }
            let high = data[high_position];
            self.rhythm_position = Some(low as usize + high as usize * 256);
            self.position = self.position + 1;
        }
        Err(StreamError::ActionBudgetExceeded { part: self.part, position: self.position })
    }
}


impl PartRunner {
    /// One tick (a timer B period) of the part. A finished part only keeps
    /// its voice effects running. A holding note counts down, keys off once
    /// its gate has passed and writes a frame. Otherwise the part runs
    /// commands up to its next note, portamento or end mark (jumping back to
    /// its loop point when looping is allowed), giving up after
    /// `MAX_ACTIONS_PER_TICK` commands.
    #[verifier::rlimit(80)]
    pub fn tick(
        &mut self,
        data: &mut [u8],
        globals: &mut SequencerGlobals,
        writes: &mut Vec<RegisterWrite>,
        events: &mut Vec<PartEvent>,
        registers: &mut RegisterState,
        timer_a_delta: u32,
        ch3_mode: &mut u8,
    ) -> (result: Result<PartTick, StreamError>)
        requires
            old(self).wf(),
            globals_wf(*old(globals)),
        ensures
            tick_kept(*old(self), *final(self), *final(globals), old(events)@, final(events)@),
            old(self).ended ==> result == Ok::<PartTick, StreamError>(PartTick { looped: false, ended: true })
                && final(self).ended && final(self).position == old(self).position,
            !old(self).ended && (old(self).remaining > 1 || old(self).remaining < 0) ==> {
                &&& result == Ok::<PartTick, StreamError>(PartTick { looped: false, ended: false })
                &&& !final(self).ended
                &&& final(self).position == old(self).position
                &&& final(self).remaining == (if old(self).remaining > 0 { old(self).remaining - 1 } else { old(self).remaining as int })
            },
            result matches Ok(t) ==> t.ended == final(self).ended,
            result matches Ok(t) && t.ended && !old(self).ended ==> ended_reported(*old(self), old(events)@, final(events)@),
            !old(self).ended && 0 <= old(self).remaining <= 1 && (result matches Ok(t) && !t.ended)
                ==> sound_started(old(self).part, *final(self), old(events)@.len() as int, final(events)@),
            result is Err ==> !final(self).ended,
            result matches Err(e) ==> error_part(e) == old(self).part,
    {
        proof {
            lemma_events_same(old(events)@, self.part);
        }
        if self.ended {
            self.state.channel.loop_check = 3;
            let update = effects::advance_voice_with_timer_a(&mut self.state.channel, globals, timer_a_delta);
            if update.force_volume_write || update.force_pitch_write || update.force_key_on {
                let ghost before = events@;
                self.emit_frame(events, None, update, writes, registers, globals, *ch3_mode);
                proof {
                    assert(events@ == before.push(events@.last()));
                    lemma_events_push(old(events)@, before, events@.last(), self.part);
                }
            }
            return Ok(PartTick { looped: false, ended: true });
        }
        self.state.channel.loop_check = 0;
        let was_holding = self.remaining > 0;
        if was_holding {
            self.remaining = self.remaining - 1;
        }
        if was_holding && self.state.channel.part_mask == 0 && self.state.channel.keyoff_flag & 3 == 0
            && self.remaining <= self.state.channel.qdat {
            effects::key_off(&mut self.state.channel);
            self.state.channel.keyoff_flag = -1;
            let event = PartEvent::KeyOff { part: self.part, kind: self.kind };
            registers.emit_key_off(&event, writes);
            let ghost before = events@;
            events.push(event);
            proof {
                lemma_events_push(old(events)@, before, event, self.part);
            }
        }
        if self.remaining != 0 {
            let update = effects::advance_voice_with_timer_a(&mut self.state.channel, globals, timer_a_delta);
            let ghost before = events@;
            self.emit_frame(events, None, update, writes, registers, globals, *ch3_mode);
            proof {
                assert(events@ == before.push(events@.last()));
                lemma_events_push(old(events)@, before, events@.last(), self.part);
            }
            return Ok(PartTick { looped: false, ended: false });
        }
        if was_holding {
            self.state.channel.lfoswi = ((self.state.channel.lfoswi as u8) & 0xf7) as i32;
            self.state.channel.porta_enabled = false;
        }
        if self.kind == ChannelKind::Rhythm {
            let ghost before = events@;
            let ghost runner = *self;
            let result = self.tick_rhythm(data, globals, writes, events, registers);
            proof {
                lemma_events_chain(old(events)@, before, events@, self.part);
                if result matches Ok(t) && t.ended {
                    let i = choose|i: int| before.len() <= i < events@.len()
                        && events@[i] == (PartEvent::Ended { part: runner.part, kind: runner.kind });
                    assert(old(events)@.len() <= i < events@.len());
                }
            }
            return result;
        }
        let mut looped = false;
        let mut count: usize = 0;
        while count < MAX_ACTIONS_PER_TICK
            invariant
                tick_kept(*old(self), *self, *globals, old(events)@, events@),
                !self.ended,
                !old(self).ended,
                0 <= old(self).remaining <= 1,
            decreases MAX_ACTIONS_PER_TICK - count,
        {
            count = count + 1;
            if self.position >= data.len() {
                return Err(StreamError::Truncated { part: self.part, position: self.position, needed: 1 });
            }
            let opcode = data[self.position];
            if opcode == 0x80 {
                self.state.channel.loop_check = 3;
                if self.allow_loop {
                    match self.state.channel.part_loop {
                        Some(part_loop) => {
                            self.position = part_loop;
                            self.state.channel.loop_check = 1;
                            looped = true;
                            continue;
                        },
                        None => {},
                    }
                }
                let ghost before = events@;
                self.finish(globals, writes, events, registers, timer_a_delta, *ch3_mode);
                proof {
                    let i = choose|i: int| before.len() <= i < events@.len()
                        && events@[i] == (PartEvent::Ended { part: self.part, kind: self.kind });
                    assert(old(events)@.len() <= i < events@.len());
                    assert(events@.subrange(0, old(events)@.len() as int) =~= before.subrange(0, old(events)@.len() as int));
                    assert forall|j: int| old(events)@.len() <= j < events@.len() implies event_part(#[trigger] events@[j]) == old(self).part by {
                        if j < before.len() {
                            assert(events@.subrange(0, before.len() as int)[j] == events@[j]);
                        }
                    }
                }
                return Ok(PartTick { looped, ended: true });
            }
            let is_portamento = opcode == 0xda && !(self.kind == ChannelKind::P86);
            let is_command = opcode > 0x80 && !is_portamento;
            let continues = is_portamento && data.len() - self.position > 4 && data[self.position + 4] == 0xc1;
            if is_command || is_portamento {
                match self.run_command(data, globals, writes, registers, ch3_mode, opcode) {
                    Ok(()) => {},
                    Err(error) => {
                        return Err(error);
                    },
                }
                if is_portamento {
                    let ghost before = events@;
                    let result = self.play_portamento(data, globals, writes, events, registers, timer_a_delta, *ch3_mode, opcode, continues, looped);
                    proof {
                        lemma_events_chain(old(events)@, before, events@, self.part);
                    }
                    return result;
                }
                continue;
            }
            let ghost before = events@;
            let result = self.play_note(data, globals, writes, events, registers, timer_a_delta, *ch3_mode, looped);
            proof {
                lemma_events_chain(old(events)@, before, events@, self.part);
            }
            return result;
        }
        Err(StreamError::ActionBudgetExceeded { part: self.part, position: self.position })
    }
}


/// What one song tick did.
#[derive(Clone, Copy, Debug, PartialEq, Eq, Structural)]
pub struct SongTick {
    pub ended: bool,
    pub looped: bool,
    pub writes: usize,
}

/// A song being sequenced: its stream (which commands may patch), the
/// runners of its parts in the order they run, the shared sequencer state
/// and the register writes of the current tick.
#[derive(Clone, Debug, PartialEq, Eq)]
pub struct SongRunner {
    pub initial_data: Vec<u8>,
    pub data: Vec<u8>,
    pub program_offset: usize,
    pub parts: Vec<PartRunner>,
    pub globals: SequencerGlobals,
    pub writes: Vec<RegisterWrite>,
    pub timer_writes: Vec<RegisterWrite>,
    pub registers: RegisterState,
    pub last_timer_b: Option<u8>,
    pub ch3_mode: u8,
    pub loop_count: Option<u32>,
    pub loops_completed: u32,
    pub ended: bool,
}

/// Parts run in strictly increasing rank, each a part of the driver
/// (numbers 0 to 21).
pub open spec fn parts_ordered(parts: Seq<PartRunner>) -> bool {
    &&& forall|i: int| 0 <= i < parts.len() ==> (#[trigger] parts[i]).part <= 21
    &&& forall|i: int, j: int| 0 <= i < j < parts.len() ==> part_rank(#[trigger] parts[i].part as int) < part_rank(
        #[trigger] parts[j].part as int,
    )
}

/// The first runner of a part, if any.
pub open spec fn part_index(parts: Seq<PartRunner>, part: usize) -> Option<int>
    decreases parts.len(),
{
    if parts.len() == 0 {
        None
    } else if parts[0].part == part {
        Some(0)
    } else {
        match part_index(parts.drop_first(), part) {
            Some(i) => Some(i + 1),
            None => None,
        }
    }
}

proof fn lemma_part_index(parts: Seq<PartRunner>, part: usize)
    ensures
        part_index(parts, part) matches Some(i) ==> 0 <= i < parts.len() && parts[i].part == part
            && forall|j: int| 0 <= j < i ==> (#[trigger] parts[j]).part != part,
        part_index(parts, part) is None ==> forall|j: int| 0 <= j < parts.len() ==> (#[trigger] parts[j]).part != part,
    decreases parts.len(),
{
    if parts.len() > 0 && parts[0].part != part {
        lemma_part_index(parts.drop_first(), part);
        assert forall|j: int| 1 <= j < parts.len() implies parts[j] == parts.drop_first()[j - 1] by {}
    }
}

/// Ranks are distinct for distinct parts and stay within 0 to 21.
proof fn lemma_rank(a: int, b: int)
    requires
        0 <= a <= 21,
        0 <= b <= 21,
    ensures
        0 <= part_rank(a) <= 21,
        a != b ==> part_rank(a) != part_rank(b),
{
}

/// In strictly ranked parts the `i`-th has rank at least `i`, so there are
/// at most 22 of them.
proof fn lemma_ordered_len(parts: Seq<PartRunner>)
    requires
        parts_ordered(parts),
    ensures
        parts.len() <= 22,
        forall|i: int| 0 <= i < parts.len() ==> part_rank(#[trigger] parts[i].part as int) >= i,
{
    assert forall|i: int| 0 <= i < parts.len() implies part_rank(#[trigger] parts[i].part as int) >= i by {
        lemma_rank_at_least(parts, i);
    }
    if parts.len() > 22 {
        lemma_rank(parts[22].part as int, 0);
        assert(part_rank(parts[22].part as int) >= 22);
    }
}

proof fn lemma_rank_at_least(parts: Seq<PartRunner>, i: int)
    requires
        parts_ordered(parts),
        0 <= i < parts.len(),
    ensures
        part_rank(parts[i].part as int) >= i,
    decreases i,
{
    lemma_rank(parts[i].part as int, 0);
    if i > 0 {
        lemma_rank_at_least(parts, i - 1);
        assert(part_rank(parts[i - 1].part as int) < part_rank(parts[i].part as int));
    }
}

impl SongRunner {
    /// The runner's invariant: well-formed part runners in running order
    /// and bounded shared state.
    pub open spec fn wf(&self) -> bool {
        &&& forall|i: int| 0 <= i < self.parts@.len() ==> (#[trigger] self.parts@[i]).wf()
        &&& parts_ordered(self.parts@)
        &&& globals_wf(self.globals)
    }

    pub fn loops_completed(&self) -> (count: u32)
        ensures
            count == self.loops_completed,
    {
        self.loops_completed
    }

    pub fn ended(&self) -> (ended: bool)
        ensures
            ended == self.ended,
    {
        self.ended
    }

    pub fn ch3_mode(&self) -> (mode: u8)
        ensures
            mode == self.ch3_mode,
    {
        self.ch3_mode
    }

    /// The timer B value the song's tempo asks for.
    pub fn timer_b_value(&self) -> (value: u8)
        ensures
            value == self.globals.tempo.timer_b,
    {
        self.globals.tempo.timer_b()
    }

    /// Where a part stands in the stream, if the song plays it.
    pub fn position(&self, part: usize) -> (position: Option<usize>)
        ensures
            position == (match part_index(self.parts@, part) {
                Some(i) => Some(self.parts@[i].position),
                None => None::<usize>,
            }),
    {
        proof {
            lemma_part_index(self.parts@, part);
        }
        let mut index: usize = 0;
        while index < self.parts.len()
            invariant
                index <= self.parts@.len(),
                forall|j: int| 0 <= j < index ==> (#[trigger] self.parts@[j]).part != part,
                part_index(self.parts@, part) matches Some(i) ==> 0 <= i < self.parts@.len() && self.parts@[i].part == part
                    && forall|j: int| 0 <= j < i ==> (#[trigger] self.parts@[j]).part != part,
                part_index(self.parts@, part) is None ==> forall|j: int| 0 <= j < self.parts@.len() ==> (#[trigger] self.parts@[j]).part != part,
            decreases self.parts@.len() - index,
        {
            if self.parts[index].part == part {
                return Some(self.parts[index].position());
            }
            index = index + 1;
        }
        None
    }

    /// Moves the tick's register writes to `output`.
    pub fn take_writes(&mut self, output: &mut Vec<RegisterWrite>)
        ensures
            final(output)@ == old(output)@ + old(self).writes@,
            *final(self) == (SongRunner { writes: final(self).writes, ..*old(self) }),
            final(self).writes@.len() == 0,
    {
        output.append(&mut self.writes);
    }

    /// Moves the sound effect writes made by timer A to `output`.
    pub fn take_timer_writes(&mut self, output: &mut Vec<RegisterWrite>)
        ensures
            final(output)@ == old(output)@ + old(self).timer_writes@,
            *final(self) == (SongRunner { timer_writes: final(self).timer_writes, ..*old(self) }),
            final(self).timer_writes@.len() == 0,
    {
        output.append(&mut self.timer_writes);
    }

    /// Advances the running sound effect by one timer A period.
    pub fn timer_a_tick(&mut self)
        ensures
            *final(self) == (SongRunner {
                registers: effect_ticked(old(self).registers).0,
                timer_writes: final(self).timer_writes,
                ..*old(self)
            }),
            final(self).timer_writes@ == old(self).timer_writes@ + effect_ticked(old(self).registers).1,
    {
        self.registers.timer_a_tick(&mut self.timer_writes);
    }

    /// Lets every part loop while the loop limit (if any) is not reached.
    pub fn apply_loop_limit(&mut self)
        requires
            old(self).wf(),
        ensures
            final(self).wf(),
            *final(self) == (SongRunner { parts: final(self).parts, ..*old(self) }),
            final(self).parts@.len() == old(self).parts@.len(),
            forall|i: int| 0 <= i < final(self).parts@.len() ==> #[trigger] final(self).parts@[i] == (PartRunner {
                allow_loop: match old(self).loop_count {
                    Some(limit) => old(self).loops_completed < limit,
                    None => true,
                },
                ..old(self).parts@[i]
            }),
    {
        let allow = match self.loop_count {
            Some(limit) => self.loops_completed < limit,
            None => true,
        };
        let mut index: usize = 0;
        while index < self.parts.len()
            invariant
                index <= self.parts@.len(),
                self.parts@.len() == old(self).parts@.len(),
                *self == (SongRunner { parts: self.parts, ..*old(self) }),
                forall|i: int| 0 <= i < index ==> #[trigger] self.parts@[i] == (PartRunner { allow_loop: allow, ..old(self).parts@[i] }),
                forall|i: int| index <= i < self.parts@.len() ==> #[trigger] self.parts@[i] == old(self).parts@[i],
                allow == match old(self).loop_count {
                    Some(limit) => old(self).loops_completed < limit,
                    None => true,
                },
            decreases self.parts@.len() - index,
        {
            self.parts[index].set_allow_loop(allow);
            index = index + 1;
        }
        assert forall|i: int, j: int| 0 <= i < j < self.parts@.len() implies part_rank(#[trigger] self.parts@[i].part as int)
            < part_rank(#[trigger] self.parts@[j].part as int) by {
            assert(self.parts@[i].part == old(self).parts@[i].part);
            assert(self.parts@[j].part == old(self).parts@[j].part);
        }
    }

    /// Sets (or lifts) the loop limit and counts loops from zero again.
    pub fn set_loop_count(&mut self, count: Option<u32>)
        requires
            old(self).wf(),
        ensures
            final(self).wf(),
            final(self).loop_count == count,
            final(self).loops_completed == 0,
            *final(self) == (SongRunner { parts: final(self).parts, loop_count: count, loops_completed: 0, ..*old(self) }),
            final(self).parts@.len() == old(self).parts@.len(),
            forall|i: int| 0 <= i < final(self).parts@.len() ==> #[trigger] final(self).parts@[i] == (PartRunner {
                allow_loop: match count {
                    Some(limit) => 0 < limit,
                    None => true,
                },
                ..old(self).parts@[i]
            }),
    {
        self.loop_count = count;
        self.loops_completed = 0;
        self.apply_loop_limit();
    }
}


/// A runner just started as an extension part at `offset`.
pub open spec fn external_runner(r: PartRunner, part: usize, kind: ChannelKind, offset: usize, program_offset: usize) -> bool {
    &&& r.wf()
    &&& r.part == part && r.kind == kind
    &&& r.program_offset == program_offset
    &&& r.start == offset && r.position == offset
    &&& r.remaining == 1 && !r.ended && r.allow_loop
    &&& r.rhythm_position is None
    &&& r.state.channel == external_channel(kind)
}

/// How many extension parts a table announces.
pub open spec fn external_slots(offsets: ExternalOffsets) -> int {
    match offsets {
        ExternalOffsets::Fm3(_) => 3,
        ExternalOffsets::Ppz(_) => 8,
    }
}

/// The part number of an announced slot: FM3 parts from 11, PPZ8 parts
/// from 14.
pub open spec fn external_part(offsets: ExternalOffsets, slot: int) -> usize {
    match offsets {
        ExternalOffsets::Fm3(_) => (11 + slot) as usize,
        ExternalOffsets::Ppz(_) => (14 + slot) as usize,
    }
}

/// The offset announced for a slot (zero for none).
pub open spec fn external_offset(offsets: ExternalOffsets, slot: int) -> u16 {
    match offsets {
        ExternalOffsets::Fm3(table) => table@[slot],
        ExternalOffsets::Ppz(table) => table@[slot],
    }
}

/// Whether some running part is `part`, started at `offset`.
pub open spec fn runs_at(parts: Seq<PartRunner>, part: usize, offset: usize) -> bool {
    exists|i: int| 0 <= i < parts.len() && (#[trigger] parts[i]).part == part && parts[i].start == offset
}

/// What `activate_part` does to the running parts when it succeeds.
pub open spec fn activated(before: Seq<PartRunner>, after: Seq<PartRunner>, part: usize, kind: ChannelKind, offset: usize, program_offset: usize) -> bool {
    match part_index(before, part) {
        Some(i) => if before[i].start == offset {
            after == before
        } else {
            after == before.update(i, after[i]) && external_runner(after[i], part, before[i].kind, offset, before[i].program_offset)
        },
        None => exists|k: int| 0 <= k <= before.len() && after == before.insert(k, after[k])
            && external_runner(after[k], part, kind, offset, program_offset),
    }
}

/// An activation starts its part and keeps every other part's start.
proof fn lemma_activated(before: Seq<PartRunner>, after: Seq<PartRunner>, part: usize, kind: ChannelKind, offset: usize,
    program_offset: usize, other: usize, other_offset: usize)
    requires
        activated(before, after, part, kind, offset, program_offset),
    ensures
        runs_at(after, part, offset),
        other != part && runs_at(before, other, other_offset) ==> runs_at(after, other, other_offset),
{
    lemma_part_index(before, part);
    match part_index(before, part) {
        Some(i) => {
            assert(after[i].part == part && after[i].start == offset);
            if other != part && runs_at(before, other, other_offset) {
                let j = choose|j: int| 0 <= j < before.len() && (#[trigger] before[j]).part == other && before[j].start == other_offset;
                assert(j != i);
                assert(after[j] == before[j]);
            }
        },
        None => {
            let k = choose|k: int| 0 <= k <= before.len() && after == before.insert(k, after[k])
                && external_runner(after[k], part, kind, offset, program_offset);
            assert(after[k].part == part && after[k].start == offset);
            if other != part && runs_at(before, other, other_offset) {
                let j = choose|j: int| 0 <= j < before.len() && (#[trigger] before[j]).part == other && before[j].start == other_offset;
                if j < k {
                    assert(after[j] == before[j]);
                } else {
                    assert(after[j + 1] == before[j]);
                }
            }
        },
    }
}

impl SongRunner {
    /// Starts extension part `part` at `offset`: a part already running
    /// there is kept, one running elsewhere restarts, a new one is inserted
    /// where its rank puts it.
    pub fn activate_part(&mut self, part: usize, kind: ChannelKind, offset: usize) -> (result: Result<(), StreamError>)
        requires
            old(self).wf(),
            11 <= part <= 21,
        ensures
            final(self).wf(),
            *final(self) == (SongRunner { parts: final(self).parts, ..*old(self) }),
            final(self).parts@.len() >= old(self).parts@.len(),
            result is Err ==> final(self).parts@ == old(self).parts@
                && result == Err::<(), StreamError>(StreamError::InvalidPartOffset { part, offset })
                && offset >= old(self).data@.len(),
            offset >= old(self).data@.len() && !(part_index(old(self).parts@, part) matches Some(i) && old(self).parts@[i].start == offset)
                ==> result is Err,
            match part_index(old(self).parts@, part) {
                Some(i) => if old(self).parts@[i].start == offset {
                    result is Ok && final(self).parts@ == old(self).parts@
                } else {
                    result is Ok ==> final(self).parts@ == old(self).parts@.update(i, final(self).parts@[i])
                        && external_runner(final(self).parts@[i], part, old(self).parts@[i].kind, offset, old(self).parts@[i].program_offset)
                        && final(self).parts@[i].rhythm_table == old(self).parts@[i].rhythm_table
                },
                None => result is Ok ==> exists|k: int| 0 <= k <= old(self).parts@.len()
                    && final(self).parts@ == old(self).parts@.insert(k, final(self).parts@[k])
                    && external_runner(final(self).parts@[k], part, kind, offset, old(self).program_offset)
                    && final(self).parts@[k].rhythm_table is None,
            },
    {
        proof {
            lemma_part_index(self.parts@, part);
        }
        let mut index: usize = 0;
        while index < self.parts.len()
            invariant
                index <= self.parts@.len(),
                *self == *old(self),
                self.wf(),
                11 <= part <= 21,
                forall|j: int| 0 <= j < index ==> (#[trigger] self.parts@[j]).part != part,
                part_index(self.parts@, part) matches Some(i) ==> 0 <= i < self.parts@.len() && self.parts@[i].part == part
                    && forall|j: int| 0 <= j < i ==> (#[trigger] self.parts@[j]).part != part,
                part_index(self.parts@, part) is None ==> forall|j: int| 0 <= j < self.parts@.len() ==> (#[trigger] self.parts@[j]).part != part,
            decreases self.parts@.len() - index,
        {
            if self.parts[index].part == part {
                proof {
                    assert(part_index(self.parts@, part) == Some(index as int));
                }
                if self.parts[index].start != offset {
                    let length = self.data.len();
                    let ghost before = self.parts@;
                    let result = self.parts[index].initialize_external(offset, length);
                    proof {
                        assert forall|i: int, j: int| 0 <= i < j < self.parts@.len() implies part_rank(#[trigger] self.parts@[i].part as int)
                            < part_rank(#[trigger] self.parts@[j].part as int) by {
                            assert(self.parts@[i].part == before[i].part);
                            assert(self.parts@[j].part == before[j].part);
                        }
                        assert forall|i: int| 0 <= i < self.parts@.len() implies (#[trigger] self.parts@[i]).wf() && self.parts@[i].part <= 21 by {
                            assert(self.parts@[i].part == before[i].part);
                        }
                    }
                    return result;
                }
                return Ok(());
            }
            index = index + 1;
        }
        proof {
            assert(part_index(self.parts@, part) is None);
        }
        let length = self.data.len();
        let mut runner = match PartRunner::new(part, kind, offset, length, self.program_offset) {
            Ok(runner) => runner,
            Err(error) => {
                return Err(error);
            },
        };
        match runner.initialize_external(offset, length) {
            Ok(()) => {},
            Err(error) => {
                return Err(error);
            },
        }
        let order = part_order(part);
        let mut at: usize = 0;
        while at < self.parts.len() && part_order(self.parts[at].part) <= order
            invariant
                at <= self.parts@.len(),
                *self == *old(self),
                self.wf(),
                order == part_rank(part as int),
                forall|j: int| 0 <= j < at ==> part_rank((#[trigger] self.parts@[j]).part as int) <= order,
            decreases self.parts@.len() - at,
        {
            at = at + 1;
        }
        let ghost before = self.parts@;
        self.parts.insert(at, runner);
        proof {
            let after = self.parts@;
            assert(after == before.insert(at as int, runner));
            lemma_rank(part as int, 0);
            assert forall|i: int| 0 <= i < after.len() implies (#[trigger] after[i]).wf() && after[i].part <= 21 by {
                if i < at {
                    assert(after[i] == before[i]);
                } else if i > at {
                    assert(after[i] == before[i - 1]);
                }
            }
            assert forall|i: int, j: int| 0 <= i < j < after.len() implies part_rank(#[trigger] after[i].part as int)
                < part_rank(#[trigger] after[j].part as int) by {
                if i < at {
                    lemma_rank(before[i].part as int, part as int);
                    assert(before[i].part != part);
                    if j > at {
                        assert(after[j] == before[j - 1]);
                        if (at as int) < before.len() {
                            assert(part_rank(before[at as int].part as int) > order);
                            if j - 1 > at {
                                assert(part_rank(before[at as int].part as int) < part_rank(before[j - 1].part as int));
                            }
                        }
                    }
                } else if i == at {
                    assert(after[j] == before[j - 1]);
                    assert(part_rank(before[at as int].part as int) > order);
                    if j - 1 > at {
                        assert(part_rank(before[at as int].part as int) < part_rank(before[j - 1].part as int));
                    }
                } else {
                    assert(after[i] == before[i - 1]);
                    assert(after[j] == before[j - 1]);
                }
            }
            assert(after[at as int] == runner);
        }
        Ok(())
    }

    /// Starts the extension parts a part announces: FM3 parts 12 to 14
    /// (numbers 11 to 13) and PPZ8 parts (numbers 14 to 21); zero offsets
    /// are skipped.
    pub fn activate_external(&mut self, offsets: ExternalOffsets) -> (result: Result<(), StreamError>)
        requires
            old(self).wf(),
        ensures
            final(self).wf(),
            *final(self) == (SongRunner { parts: final(self).parts, ..*old(self) }),
            final(self).parts@.len() >= old(self).parts@.len(),
            result is Ok ==> forall|s: int| 0 <= s < external_slots(offsets) && #[trigger] external_offset(offsets, s) != 0
                ==> runs_at(final(self).parts@, external_part(offsets, s), external_offset(offsets, s) as usize),
            result matches Err(e) ==> exists|s: int| 0 <= s < external_slots(offsets) && #[trigger] external_offset(offsets, s) != 0
                && external_offset(offsets, s) >= old(self).data@.len()
                && e == (StreamError::InvalidPartOffset { part: external_part(offsets, s), offset: external_offset(offsets, s) as usize }),
            (forall|s: int| 0 <= s < external_slots(offsets) ==> #[trigger] external_offset(offsets, s) == 0
                || external_offset(offsets, s) < old(self).data@.len()) ==> result is Ok,
    {
        let (count, base): (usize, usize) = match offsets {
            ExternalOffsets::Fm3(_) => (3, 11),
            ExternalOffsets::Ppz(_) => (8, 14),
        };
        let kind = match offsets {
            ExternalOffsets::Fm3(_) => ChannelKind::Fm,
            ExternalOffsets::Ppz(_) => ChannelKind::Ppz8,
        };
        let mut slot: usize = 0;
        while slot < count
            invariant
                count == external_slots(offsets),
                forall|s: int| 0 <= s < count ==> #[trigger] external_part(offsets, s) == base + s,
                base + count <= 22,
                base >= 11,
                self.wf(),
                *self == (SongRunner { parts: self.parts, ..*old(self) }),
                self.parts@.len() >= old(self).parts@.len(),
                forall|s: int| 0 <= s < slot && #[trigger] external_offset(offsets, s) != 0
                    ==> runs_at(self.parts@, external_part(offsets, s), external_offset(offsets, s) as usize),
            decreases count - slot,
        {
            let offset: u16 = match offsets {
                ExternalOffsets::Fm3(table) => table[slot],
                ExternalOffsets::Ppz(table) => table[slot],
            };
            proof {
                assert(offset == external_offset(offsets, slot as int));
            }
            if offset != 0 {
                let ghost before = self.parts@;
                match self.activate_part(base + slot, kind, offset as usize) {
                    Ok(()) => {
                        proof {
                            assert(activated(before, self.parts@, (base + slot) as usize, kind, offset as usize, old(self).program_offset));
                            assert forall|s: int| 0 <= s <= slot && #[trigger] external_offset(offsets, s) != 0
                                implies runs_at(self.parts@, external_part(offsets, s), external_offset(offsets, s) as usize) by {
                                lemma_activated(before, self.parts@, (base + slot) as usize, kind, offset as usize, old(self).program_offset,
                                    external_part(offsets, s), external_offset(offsets, s) as usize);
                            }
                        }
                    },
                    Err(error) => {
                        proof {
                            assert(external_offset(offsets, slot as int) != 0);
                        }
                        return Err(error);
                    },
                }
            }
            slot = slot + 1;
        }
        Ok(())
    }
}


/// The parts of a song's layout in the order they run: SSG, FM bank 2,
/// FM bank 1, rhythm, then the ADPCM part.
pub open spec fn layout_part(k: int) -> usize {
    if 0 <= k < 3 {
        (k + 6) as usize
    } else if 3 <= k < 6 {
        k as usize
    } else if 6 <= k < 9 {
        (k - 6) as usize
    } else if k == 9 {
        10
    } else {
        9
    }
}

/// The sound source a layout part plays.
pub open spec fn layout_kind(part: usize, use_p86: bool) -> ChannelKind {
    if 6 <= part <= 8 {
        ChannelKind::Ssg
    } else if part <= 5 {
        ChannelKind::Fm
    } else if part == 10 {
        ChannelKind::Rhythm
    } else if use_p86 {
        ChannelKind::P86
    } else {
        ChannelKind::Adpcm
    }
}

/// The stream offset of a layout part.
pub open spec fn part_offset(layout: MainLayout, part: usize) -> usize {
    layout.part_offsets@[part as int] as usize
}

/// Whether a layout part is played: it has a stream that does not begin
/// with the end mark.
pub open spec fn part_played(layout: MainLayout, data: Seq<u8>, part: usize) -> bool {
    let offset = part_offset(layout, part);
    offset != 0 && !(offset < data.len() && data[offset as int] == 0x80)
}

/// Whether a layout part points past the stream.
pub open spec fn part_out_of_range(layout: MainLayout, data: Seq<u8>, part: usize) -> bool {
    let offset = part_offset(layout, part);
    offset != 0 && offset >= data.len()
}

/// A runner fresh at the start of a layout part.
pub open spec fn layout_runner(r: PartRunner, layout: MainLayout, use_p86: bool) -> bool {
    &&& r.wf()
    &&& r.part <= 10
    &&& r.kind == layout_kind(r.part, use_p86)
    &&& r.start == part_offset(layout, r.part) && r.position == r.start
    &&& r.program_offset == layout.program_area_offset as usize
    &&& r.remaining == 0 && !r.ended && r.allow_loop
    &&& r.rhythm_position is None
    &&& r.rhythm_table == (if r.part == 10 { Some(layout.rhythm_table_offset as usize) } else { None::<usize> })
    &&& r.state.channel == initial_channel(r.kind)
}

/// The rank of the `k`-th layout part.
pub open spec fn layout_rank(k: int) -> int {
    if k < 9 { k } else if k == 9 { 12 } else if k == 10 { 13 } else { 14 }
}

/// A copy of some bytes.
fn copy_bytes(source: &[u8], from: usize) -> (copy: Vec<u8>)
    requires
        from <= source@.len(),
    ensures
        copy@ == source@.subrange(from as int, source@.len() as int),
{
    let mut copy: Vec<u8> = Vec::new();
    let mut index = from;
    while index < source.len()
        invariant
            from <= index <= source@.len(),
            copy@ == source@.subrange(from as int, index as int),
        decreases source@.len() - index,
    {
        copy.push(source[index]);
        index = index + 1;
        assert(copy@ =~= source@.subrange(from as int, index as int));
    }
    copy
}

/// What building a runner for a song gives: nothing without a layout, an
/// error for an empty main file or a part offset past the stream (the
/// first in running order), else a runner at the start of every played
/// part, in running order.
pub open spec fn song_runner_built(song: ParsedSong, use_p86: bool, result: Result<Option<SongRunner>, StreamError>) -> bool {
    match song.layout {
        None => result == Ok::<Option<SongRunner>, StreamError>(None),
        Some(layout) => if song.main@.len() == 0 {
            result == Err::<Option<SongRunner>, StreamError>(StreamError::Truncated { part: 0, position: 0, needed: 1 })
        } else {
            let data = song.main@.drop_first();
            &&& result is Ok <==> forall|k: int| 0 <= k < 11 ==> !part_out_of_range(layout, data, #[trigger] layout_part(k))
            &&& result matches Err(e) ==> exists|k: int| 0 <= k < 11
                && e == (StreamError::InvalidPartOffset { part: layout_part(k), offset: part_offset(layout, layout_part(k)) })
                && part_out_of_range(layout, data, #[trigger] layout_part(k))
                && forall|j: int| 0 <= j < k ==> !part_out_of_range(layout, data, #[trigger] layout_part(j))
            &&& result matches Ok(built) ==> built is Some
            &&& result matches Ok(Some(r)) ==> {
                &&& r.wf()
                &&& r.data@ == data && r.initial_data@ == data
                &&& r.program_offset == layout.program_area_offset as usize
                &&& r.writes@.len() == 0 && r.timer_writes@.len() == 0
                &&& registers_initial(r.registers)
                &&& r.last_timer_b == Some(DEFAULT_TIMER_B)
                &&& r.ch3_mode == 0x3f
                &&& r.loop_count is None && r.loops_completed == 0
                &&& r.ended == (r.parts@.len() == 0)
                &&& forall|i: int| 0 <= i < r.parts@.len() ==> layout_runner(#[trigger] r.parts@[i], layout, use_p86)
                    && part_played(layout, data, r.parts@[i].part)
                &&& forall|k: int| 0 <= k < 11 && part_played(layout, data, #[trigger] layout_part(k))
                    ==> part_index(r.parts@, layout_part(k)) is Some
            }
        },
    }
}

impl SongRunner {
    /// A runner for a song's stream (the main data after its first byte),
    /// with one part runner per played layout part in running order; none
    /// when the song has no layout. A part offset past the stream is an
    /// error (the first in running order is reported).
    pub fn from_song_with_p86(song: &ParsedSong, use_p86: bool) -> (result: Result<Option<Self>, StreamError>)
        ensures
            song_runner_built(*song, use_p86, result),
    {
        let layout = match song.layout {
            Some(layout) => layout,
            None => {
                return Ok(None);
            },
        };
        if song.main.len() == 0 {
            return Err(StreamError::Truncated { part: 0, position: 0, needed: 1 });
        }
        let data = copy_bytes(song.main.as_slice(), 1);
        let ghost bytes = song.main@.drop_first();
        assert(data@ =~= bytes);
        let order: [usize; 11] = [6, 7, 8, 3, 4, 5, 0, 1, 2, 10, 9];
        let mut parts: Vec<PartRunner> = Vec::new();
        let mut k: usize = 0;
        while k < 11
            invariant
                k <= 11,
                song.layout == Some(layout),
                song.main@.len() > 0,
                bytes == song.main@.drop_first(),
                data@ == bytes,
                order@ == seq![6usize, 7, 8, 3, 4, 5, 0, 1, 2, 10, 9],
                forall|j: int| 0 <= j < k ==> !part_out_of_range(layout, bytes, #[trigger] layout_part(j)),
                forall|i: int| 0 <= i < parts@.len() ==> layout_runner(#[trigger] parts@[i], layout, use_p86)
                    && part_played(layout, bytes, parts@[i].part)
                    && part_rank(parts@[i].part as int) < layout_rank(k as int),
                parts_ordered(parts@),
                forall|j: int| 0 <= j < k && part_played(layout, bytes, #[trigger] layout_part(j)) ==> part_index(parts@, layout_part(j)) is Some,
            decreases 11 - k,
        {
            let part = order[k];
            assert(part == layout_part(k as int));
            let offset = layout.part_offsets[part] as usize;
            let ghost before = parts@;
            if offset != 0 {
                if !(offset < data.len() && data[offset] == 0x80) {
                    let kind = if 6 <= part && part <= 8 {
                        ChannelKind::Ssg
                    } else if part <= 5 {
                        ChannelKind::Fm
                    } else if part == 10 {
                        ChannelKind::Rhythm
                    } else if use_p86 {
                        ChannelKind::P86
                    } else {
                        ChannelKind::Adpcm
                    };
                    let mut runner = match PartRunner::new(part, kind, offset, data.len(), layout.program_area_offset as usize) {
                        Ok(runner) => runner,
                        Err(error) => {
                            proof {
                                let kk = k as int;
                                assert(part_out_of_range(layout, bytes, layout_part(kk)));
                                assert(error == (StreamError::InvalidPartOffset { part: layout_part(kk), offset: part_offset(layout, layout_part(kk)) }));
                                assert(forall|j: int| 0 <= j < kk ==> !part_out_of_range(layout, bytes, #[trigger] layout_part(j)));
                            }
                            return Err(error);
                        },
                    };
                    if part == 10 {
                        runner.set_rhythm_table(layout.rhythm_table_offset as usize);
                    }
                    parts.push(runner);
                    proof {
                        assert(part_rank(part as int) == layout_rank(k as int));
                        assert(layout_runner(runner, layout, use_p86));
                        lemma_part_index(before, part);
                        assert forall|i: int| 0 <= i < parts@.len() implies layout_runner(#[trigger] parts@[i], layout, use_p86)
                            && part_played(layout, bytes, parts@[i].part)
                            && part_rank(parts@[i].part as int) < layout_rank(k + 1) by {
                            if i < before.len() {
                                assert(parts@[i] == before[i]);
                            }
                        }
                        assert forall|j: int| 0 <= j < k + 1 && part_played(layout, bytes, #[trigger] layout_part(j))
                            implies part_index(parts@, layout_part(j)) is Some by {
                            lemma_part_index(parts@, layout_part(j));
                            if j < k {
                                lemma_part_index(before, layout_part(j));
                                let i = part_index(before, layout_part(j))->0;
                                assert(parts@[i] == before[i]);
                            } else {
                                assert(parts@[before.len() as int].part == layout_part(j));
                            }
                        }
                    }
                } else {
                    proof {
                        assert forall|j: int| 0 <= j < k + 1 && part_played(layout, bytes, #[trigger] layout_part(j))
                            implies part_index(parts@, layout_part(j)) is Some by {
                        }
                    }
                }
            }
            k = k + 1;
        }
        let ended = parts.len() == 0;
        let initial_data = copy_bytes(song.main.as_slice(), 1);
        let globals = SequencerGlobals::new();
        let timer_b = globals.tempo.timer_b();
        Ok(Some(SongRunner {
            initial_data,
            data,
            program_offset: layout.program_area_offset as usize,
            parts,
            globals,
            writes: Vec::new(),
            timer_writes: Vec::new(),
            registers: RegisterState::new(),
            last_timer_b: Some(timer_b),
            ch3_mode: 0x3f,
            loop_count: None,
            loops_completed: 0,
            ended,
        }))
    }

    /// The runner of a song played with the ADPCM part.
    pub fn from_song(song: &ParsedSong) -> (result: Result<Option<Self>, StreamError>)
        ensures
            song_runner_built(*song, false, result),
    {
        Self::from_song_with_p86(song, false)
    }
}


/// Whether a part survives a song reset: the extension parts go.
pub open spec fn kept_on_reset(r: PartRunner) -> bool {
    r.part < 11
}

/// A runner put back to the start of its stream.
pub open spec fn runner_reset(f: PartRunner, o: PartRunner) -> bool {
    &&& f.wf()
    &&& f.part == o.part && f.kind == o.kind && f.start == o.start
    &&& f.program_offset == o.program_offset && f.rhythm_table == o.rhythm_table
    &&& f.position == o.start && f.remaining == 0 && !f.ended && f.rhythm_position is None
    &&& f.state.channel == initial_channel(o.kind)
}

proof fn lemma_ordered_remove(parts: Seq<PartRunner>, i: int)
    requires
        parts_ordered(parts),
        0 <= i < parts.len(),
    ensures
        parts_ordered(parts.remove(i)),
{
    let after = parts.remove(i);
    assert forall|a: int| 0 <= a < after.len() implies (#[trigger] after[a]).part <= 21 by {
        if a >= i {
            assert(after[a] == parts[a + 1]);
        }
    }
    assert forall|a: int, b: int| 0 <= a < b < after.len() implies part_rank(#[trigger] after[a].part as int)
        < part_rank(#[trigger] after[b].part as int) by {
        let a0 = if a < i { a } else { a + 1 };
        let b0 = if b < i { b } else { b + 1 };
        assert(after[a] == parts[a0]);
        assert(after[b] == parts[b0]);
    }
}

/// A song runner back at the start of its song: the stream as loaded,
/// fresh shared state and registers, no extension parts, every part at its
/// start with looping as the loop limit allows.
pub open spec fn song_runner_reset(o: SongRunner, f: SongRunner) -> bool {
    &&& f.data@ == o.initial_data@
    &&& f.initial_data == o.initial_data
    &&& f.program_offset == o.program_offset
    &&& f.writes@.len() == 0 && f.timer_writes@.len() == 0
    &&& registers_initial(f.registers)
    &&& f.last_timer_b == Some(DEFAULT_TIMER_B)
    &&& f.ch3_mode == 0x3f
    &&& f.loop_count == o.loop_count
    &&& f.loops_completed == 0
    &&& f.parts@.len() == o.parts@.filter(|r: PartRunner| kept_on_reset(r)).len()
    &&& forall|i: int| 0 <= i < f.parts@.len() ==> {
        let before = o.parts@.filter(|r: PartRunner| kept_on_reset(r))[i];
        &&& runner_reset(#[trigger] f.parts@[i], before)
        &&& f.parts@[i].allow_loop == match o.loop_count {
            Some(limit) => 0 < limit,
            None => true,
        }
    }
    &&& f.ended == (f.parts@.len() == 0)
}

impl SongRunner {
    /// Back to the start of the song: the stream as loaded, fresh shared
    /// state and registers, no extension parts, every part at its start.
    pub fn reset(&mut self)
        requires
            old(self).wf(),
        ensures
            final(self).wf(),
            song_runner_reset(*old(self), *final(self)),
    {
        self.data = copy_bytes(self.initial_data.as_slice(), 0);
        assert(self.data@ =~= old(self).initial_data@);
        self.globals = SequencerGlobals::new();
        self.writes.clear();
        self.timer_writes.clear();
        self.registers.reset();
        self.last_timer_b = Some(self.globals.tempo.timer_b());
        self.ch3_mode = 0x3f;
        self.loops_completed = 0;
        let ghost keep = |r: PartRunner| kept_on_reset(r);
        let ghost original = old(self).parts@;
        let ghost pre = *self;
        let mut index = self.parts.len();
        assert(original.subrange(index as int, original.len() as int).filter(keep) =~= Seq::<PartRunner>::empty());
        assert(original.subrange(0, index as int) =~= original);
        while index > 0
            invariant
                index <= self.parts@.len(),
                index <= original.len(),
                original == old(self).parts@,
                self.parts@ == original.subrange(0, index as int) + original.subrange(index as int, original.len() as int).filter(keep),
                forall|i: int| 0 <= i < self.parts@.len() ==> (#[trigger] self.parts@[i]).wf(),
                parts_ordered(self.parts@),
                globals_wf(self.globals),
                keep == (|r: PartRunner| kept_on_reset(r)),
                *self == (SongRunner { parts: self.parts, ..pre }),
            decreases index,
        {
            index = index - 1;
            let ghost rest = original.subrange(index as int + 1, original.len() as int);
            proof {
                assert(original.subrange(index as int, original.len() as int) =~= seq![original[index as int]] + rest);
                Seq::filter_distributes_over_add(seq![original[index as int]], rest, keep);
                reveal_with_fuel(Seq::filter, 2);
                assert(seq![original[index as int]].drop_last() =~= Seq::<PartRunner>::empty());
                assert(self.parts@[index as int] == original[index as int]);
            }
            if self.parts[index].part >= 11 {
                let ghost before = self.parts@;
                self.parts.remove(index);
                proof {
                    lemma_ordered_remove(before, index as int);
                    assert forall|i: int| 0 <= i < self.parts@.len() implies (#[trigger] self.parts@[i]).wf() by {
                        if i >= index {
                            assert(self.parts@[i] == before[i + 1]);
                        }
                    }
                    assert(seq![original[index as int]].filter(keep) =~= Seq::<PartRunner>::empty());
                    assert(self.parts@ =~= original.subrange(0, index as int) + original.subrange(index as int, original.len() as int).filter(keep));
                }
            } else {
                proof {
                    assert(seq![original[index as int]].filter(keep) =~= seq![original[index as int]]);
                    assert(self.parts@ =~= original.subrange(0, index as int) + original.subrange(index as int, original.len() as int).filter(keep));
                }
            }
        }
        assert(self.parts@ =~= original.filter(keep));
        self.ended = self.parts.len() == 0;
        let ghost kept = self.parts@;
        let ghost pre = *self;
        let mut index: usize = 0;
        while index < self.parts.len()
            invariant
                index <= self.parts@.len(),
                self.parts@.len() == kept.len(),
                forall|i: int| 0 <= i < index ==> runner_reset(#[trigger] self.parts@[i], kept[i]),
                forall|i: int| index <= i < self.parts@.len() ==> #[trigger] self.parts@[i] == kept[i],
                forall|i: int| 0 <= i < kept.len() ==> (#[trigger] kept[i]).wf(),
                parts_ordered(kept),
                *self == (SongRunner { parts: self.parts, ..pre }),
            decreases self.parts@.len() - index,
        {
            self.parts[index].reset();
            index = index + 1;
        }
        assert forall|i: int| 0 <= i < self.parts@.len() implies (#[trigger] self.parts@[i]).wf() by {
            assert(runner_reset(self.parts@[i], kept[i]));
        }
        assert forall|i: int, j: int| 0 <= i < j < self.parts@.len() implies part_rank(#[trigger] self.parts@[i].part as int)
            < part_rank(#[trigger] self.parts@[j].part as int) by {
            assert(runner_reset(self.parts@[i], kept[i]));
            assert(runner_reset(self.parts@[j], kept[j]));
        }
        assert forall|i: int| 0 <= i < self.parts@.len() implies (#[trigger] self.parts@[i]).part <= 21 by {
            assert(runner_reset(self.parts@[i], kept[i]));
        }
        self.apply_loop_limit();
    }
}


/// The writes that close a tick: timer B when the tempo changed since it
/// was last written, then the FM3 mode register with the timer enables.
pub open spec fn tick_tail(last_timer_b: Option<u8>, timer_b: u8, ch3_mode: u8) -> Seq<RegisterWrite> {
    let tempo = if last_timer_b == Some(timer_b) {
        Seq::<RegisterWrite>::empty()
    } else {
        seq![RegisterWrite { address: 0x26, value: timer_b }]
    };
    tempo.push(RegisterWrite { address: 0x27, value: ch3_mode | 0x30 })
}

/// What a song tick promises: a finished song only clears the tick's
/// output; otherwise the tick's writes end with the closing writes, the
/// loop counter advances (saturating) when a part looped, and the tick's
/// report matches the runner.
pub open spec fn song_ticked(o: SongRunner, f: SongRunner, events: Seq<PartEvent>, result: Result<SongTick, StreamError>) -> bool {
    &&& f.wf()
    &&& f.initial_data == o.initial_data && f.program_offset == o.program_offset && f.loop_count == o.loop_count
    &&& f.parts@.len() >= o.parts@.len()
    &&& o.ended ==> {
        &&& result == Ok::<SongTick, StreamError>(SongTick { ended: true, looped: false, writes: 0 })
        &&& f == (SongRunner { writes: f.writes, ..o })
        &&& f.writes@.len() == 0
        &&& events.len() == 0
    }
    &&& !o.ended && result is Ok ==> {
        let t = result->Ok_0;
        &&& t.writes == f.writes@.len()
        &&& t.ended == f.ended
        &&& o.ended ==> f.ended
        &&& exists|m: Seq<RegisterWrite>| f.writes@ == m + tick_tail(o.last_timer_b, f.globals.tempo.timer_b, f.ch3_mode)
        &&& f.last_timer_b == Some(f.globals.tempo.timer_b)
        &&& f.loops_completed == (if t.looped {
            if o.loops_completed == u32::MAX { u32::MAX as int } else { o.loops_completed + 1 }
        } else {
            o.loops_completed as int
        })
    }
}

impl SongRunner {
    /// One tick of the song (a timer B period) with `timer_a_delta` timer A
    /// periods elapsed: every part ticks in running order (extension parts
    /// a part announces start right away), then the closing writes follow.
    #[verifier::rlimit(60)]
    pub fn tick_with_timer_a(&mut self, events: &mut Vec<PartEvent>, timer_a_delta: u32) -> (result: Result<SongTick, StreamError>)
        requires
            old(self).wf(),
        ensures
            song_ticked(*old(self), *final(self), final(events)@, result),
    {
        events.clear();
        self.writes.clear();
        if self.ended {
            return Ok(SongTick { ended: true, looped: false, writes: 0 });
        }
        let mut looped = false;
        let mut all_ended = true;
        let mut index: usize = 0;
        while index < self.parts.len()
            invariant
                self.wf(),
                index <= self.parts@.len(),
                self.parts@.len() >= old(self).parts@.len(),
                self.initial_data == old(self).initial_data,
                self.program_offset == old(self).program_offset,
                self.loop_count == old(self).loop_count,
                self.loops_completed == old(self).loops_completed,
                self.last_timer_b == old(self).last_timer_b,
                !self.ended,
                !old(self).ended,
            decreases 22 - index,
        {
            proof {
                lemma_ordered_len(self.parts@);
            }
            let ghost before = self.parts@;
            let outcome = self.parts[index].tick(
                self.data.as_mut_slice(),
                &mut self.globals,
                &mut self.writes,
                events,
                &mut self.registers,
                timer_a_delta,
                &mut self.ch3_mode,
            );
            proof {
                assert forall|i: int| 0 <= i < self.parts@.len() implies (#[trigger] self.parts@[i]).wf()
                    && self.parts@[i].part == before[i].part by {
                    if i != index {
                        assert(self.parts@[i] == before[i]);
                    }
                }
                assert forall|i: int, j: int| 0 <= i < j < self.parts@.len() implies part_rank(#[trigger] self.parts@[i].part as int)
                    < part_rank(#[trigger] self.parts@[j].part as int) by {
                    assert(self.parts@[i].part == before[i].part);
                    assert(self.parts@[j].part == before[j].part);
                }
                assert forall|i: int| 0 <= i < self.parts@.len() implies (#[trigger] self.parts@[i]).part <= 21 by {
                    assert(self.parts@[i].part == before[i].part);
                }
            }
            let tick = match outcome {
                Ok(tick) => tick,
                Err(error) => {
                    return Err(error);
                },
            };
            looped = looped || tick.looped;
            all_ended = all_ended && tick.ended;
            match self.parts[index].external_offsets() {
                Some(offsets) => {
                    match self.activate_external(offsets) {
                        Ok(()) => {},
                        Err(error) => {
                            return Err(error);
                        },
                    }
                },
                None => {},
            }
            index = index + 1;
        }
        if looped {
            self.loops_completed = self.loops_completed.saturating_add(1);
            self.apply_loop_limit();
        }
        let timer_b = self.globals.tempo.timer_b();
        let ghost body = self.writes@;
        let changed = match self.last_timer_b {
            Some(value) => value != timer_b,
            None => true,
        };
        if changed {
            self.writes.push(RegisterWrite { address: 0x26, value: timer_b });
            self.last_timer_b = Some(timer_b);
        }
        self.writes.push(RegisterWrite { address: 0x27, value: self.ch3_mode | 0x30 });
        if all_ended {
            self.ended = true;
        }
        proof {
            let tail = tick_tail(old(self).last_timer_b, self.globals.tempo.timer_b, self.ch3_mode);
            assert(self.writes@ =~= body + tail);
            assert(exists|m: Seq<RegisterWrite>| self.writes@ == m + tail);
        }
        Ok(SongTick { ended: self.ended, looped, writes: self.writes.len() })
    }

    /// One tick of the song with one timer A period elapsed.
    pub fn tick(&mut self, events: &mut Vec<PartEvent>) -> (result: Result<SongTick, StreamError>)
        requires
            old(self).wf(),
        ensures
            song_ticked(*old(self), *final(self), final(events)@, result),
    {
        self.tick_with_timer_a(events, 1)
    }
}

} // verus!
