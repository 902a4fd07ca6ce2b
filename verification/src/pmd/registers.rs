use vstd::prelude::*;
use super::channel::{ChannelKind, ChannelState, EffectRequest, RegisterWrite};
use super::effects::{VoiceFrame, fm_up, fm_down, wadd, wsub, wmul};
use super::stream::PartEvent;
use super::commands::algorithm_carrier;

verus! {

broadcast use crate::bits::group_bit_bounds;

/// One segment of an SSG sound effect: its length in timer A ticks, its
/// starting registers and the per-tick tone and noise sweeps.
#[derive(Clone, Copy, Debug, PartialEq, Eq, Structural)]
pub struct EffectSegment {
    pub count: i32,
    pub tone: i32,
    pub noise: i32,
    pub mixer: i32,
    pub volume: i32,
    pub envelope: i32,
    pub pattern: i32,
    pub tone_step: i32,
    pub noise_step: i32,
}

/// The segments of the built-in sound effects 0 to 10.
pub open spec fn segment_spec(table: int, segment: int) -> Option<EffectSegment> {
    let s = |count: i32, tone: i32, noise: i32, mixer: i32, volume: i32, envelope: i32, tone_step: i32, noise_step: i32|
        Some(EffectSegment { count, tone, noise, mixer, volume, envelope, pattern: 0, tone_step, noise_step });
    if table == 0 && segment == 0 {
        s(1, 1500, 31, 54, 15, 0, 127, 0)
    } else if table == 0 && segment == 1 {
        s(8, 1700, 0, 62, 16, 1200, 127, 0)
    } else if table == 1 && segment == 0 {
        s(14, 400, 7, 54, 16, 3000, 93, -14i32)
    } else if table == 2 && segment == 0 {
        s(2, 700, 0, 54, 15, 0, 100, 0)
    } else if table == 2 && segment == 1 {
        s(14, 900, 0, 54, 16, 2500, 100, 0)
    } else if table == 3 && segment == 0 {
        s(2, 500, 5, 54, 15, 0, 60, 0)
    } else if table == 3 && segment == 1 {
        s(14, 620, 0, 54, 16, 2500, 60, 0)
    } else if table == 4 && segment == 0 {
        s(2, 300, 0, 54, 15, 0, 50, 0)
    } else if table == 4 && segment == 1 {
        s(14, 400, 0, 54, 16, 2500, 50, 0)
    } else if table == 5 && segment == 0 {
        s(2, 55, 0, 62, 16, 300, 100, 0)
    } else if table == 6 && segment == 0 {
        s(16, 0, 15, 55, 16, 3000, 0, -15i32)
    } else if table == 7 && segment == 0 {
        s(6, 39, 0, 54, 16, 500, 0, 0)
    } else if table == 8 && segment == 0 {
        s(32, 39, 0, 54, 16, 5000, 0, 0)
    } else if table == 9 && segment == 0 {
        s(31, 40, 31, 54, 16, 5000, 0, -15i32)
    } else if table == 10 && segment == 0 {
        s(31, 30, 0, 54, 16, 5000, 0, 0)
    } else {
        None
    }
}

/// How many segments a built-in effect has (0 for no such effect).
pub open spec fn effect_length(table: int) -> int {
    if table == 0 || table == 2 || table == 3 || table == 4 { 2 } else if 0 <= table < 11 { 1 } else { 0 }
}

fn segment(count: i32, tone: i32, noise: i32, mixer: i32, volume: i32, envelope: i32, tone_step: i32, noise_step: i32) -> (s: EffectSegment)
    ensures
        s == (EffectSegment { count, tone, noise, mixer, volume, envelope, pattern: 0, tone_step, noise_step }),
{
    EffectSegment { count, tone, noise, mixer, volume, envelope, pattern: 0, tone_step, noise_step }
}

pub fn effect_segment(table: usize, index: usize) -> (found: Option<EffectSegment>)
    ensures
        found == segment_spec(table as int, index as int),
        found matches Some(s) ==> 0 <= s.mixer <= 63 && -15 <= s.noise_step <= 0,
{
    if table == 0 && index == 0 {
        Some(segment(1, 1500, 31, 54, 15, 0, 127, 0))
    } else if table == 0 && index == 1 {
        Some(segment(8, 1700, 0, 62, 16, 1200, 127, 0))
    } else if table == 1 && index == 0 {
        Some(segment(14, 400, 7, 54, 16, 3000, 93, -14))
    } else if table == 2 && index == 0 {
        Some(segment(2, 700, 0, 54, 15, 0, 100, 0))
    } else if table == 2 && index == 1 {
        Some(segment(14, 900, 0, 54, 16, 2500, 100, 0))
    } else if table == 3 && index == 0 {
        Some(segment(2, 500, 5, 54, 15, 0, 60, 0))
    } else if table == 3 && index == 1 {
        Some(segment(14, 620, 0, 54, 16, 2500, 60, 0))
    } else if table == 4 && index == 0 {
        Some(segment(2, 300, 0, 54, 15, 0, 50, 0))
    } else if table == 4 && index == 1 {
        Some(segment(14, 400, 0, 54, 16, 2500, 50, 0))
    } else if table == 5 && index == 0 {
        Some(segment(2, 55, 0, 62, 16, 300, 100, 0))
    } else if table == 6 && index == 0 {
        Some(segment(16, 0, 15, 55, 16, 3000, 0, -15))
    } else if table == 7 && index == 0 {
        Some(segment(6, 39, 0, 54, 16, 500, 0, 0))
    } else if table == 8 && index == 0 {
        Some(segment(32, 39, 0, 54, 16, 5000, 0, 0))
    } else if table == 9 && index == 0 {
        Some(segment(31, 40, 31, 54, 16, 5000, 0, -15))
    } else if table == 10 && index == 0 {
        Some(segment(31, 30, 0, 54, 16, 5000, 0, 0))
    } else {
        None
    }
}

pub fn effect_segment_count(table: usize) -> (count: usize)
    ensures
        count == effect_length(table as int),
{
    if table == 0 || table == 2 || table == 3 || table == 4 {
        2
    } else if table < 11 {
        1
    } else {
        0
    }
}

/// A sound effect that is playing: which one, its segment and the sweep
/// state.
#[derive(Clone, Copy, Debug, PartialEq, Eq, Structural)]
pub struct ActiveEffect {
    pub table: usize,
    pub segment: usize,
    pub remaining: i32,
    pub tone: i32,
    pub noise: i32,
    pub tone_step: i32,
    pub noise_step: i32,
    pub noise_counter: i32,
    pub correction: u8,
}

/// What the register writer remembers between ticks: the SSG mixer and
/// noise registers, the last frame each part wrote, the FM key-on bits
/// (bank times three plus channel) and the playing sound effect.
#[derive(Clone, Debug, PartialEq, Eq)]
pub struct RegisterState {
    pub ssg_mixer: u8,
    pub psg_noise: u8,
    pub ssg_frames: [Option<(i32, i32)>; 3],
    pub fm_frames: [Option<VoiceFrame>; 22],
    pub fm_keys: [u8; 6],
    pub effect: Option<ActiveEffect>,
    pub effect_priority: u8,
}

/// A register write.
pub open spec fn rw(address: u16, value: u8) -> RegisterWrite {
    RegisterWrite { address, value }
}

/// The register writer's state before anything is written.
pub open spec fn registers_initial(s: RegisterState) -> bool {
    &&& s.ssg_mixer == 0xbf
    &&& s.psg_noise == 0
    &&& forall|i: int| 0 <= i < 3 ==> #[trigger] s.ssg_frames@[i] is None
    &&& forall|i: int| 0 <= i < 22 ==> #[trigger] s.fm_frames@[i] is None
    &&& forall|i: int| 0 <= i < 6 ==> #[trigger] s.fm_keys@[i] == 0
    &&& s.effect is None
    &&& s.effect_priority == 0
}

/// The mixer byte a segment sets: its tone/noise enables for channel C
/// (bits 2 and 5) over the other channels' bits.
pub open spec fn segment_mixer(data: EffectSegment, mixer: u8) -> u8 {
    (((data.mixer << 2) & 0x24) as u8) | (mixer & 0xdb)
}

/// The writes that start a segment: tone, noise, mixer, volume, envelope
/// period and shape.
pub open spec fn segment_writes(data: EffectSegment, mixer: u8) -> Seq<RegisterWrite> {
    seq![
        rw(0x04, data.tone as u8),
        rw(0x05, (data.tone >> 8) as u8),
        rw(0x06, data.noise as u8),
        rw(0x07, mixer),
        rw(0x0a, data.volume as u8),
        rw(0x0b, data.envelope as u8),
        rw(0x0c, (data.envelope >> 8) as u8),
        rw(0x0d, data.pattern as u8),
    ]
}

/// A noise value as the 5-bit noise register keeps it.
pub open spec fn noise_register(noise: i32) -> u8 {
    (if noise < 0 { 0 } else if noise > 31 { 31 } else { noise as int }) as u8
}

/// The effect stopped: channel C silenced and its mixer bits turned off.
pub open spec fn effect_ended(s: RegisterState) -> RegisterState {
    RegisterState { effect: None, effect_priority: 0, ssg_mixer: s.ssg_mixer | 0x24, ..s }
}

pub open spec fn end_writes(s: RegisterState) -> Seq<RegisterWrite> {
    seq![rw(0x0a, 0), rw(0x07, s.ssg_mixer | 0x24)]
}

/// The state after a segment of the playing effect starts.
pub open spec fn segment_started(s: RegisterState, e: ActiveEffect, index: int, data: EffectSegment) -> RegisterState {
    RegisterState {
        effect: Some(ActiveEffect {
            segment: index as usize,
            remaining: data.count,
            tone: data.tone,
            noise: data.noise,
            tone_step: data.tone_step,
            noise_step: data.noise_step,
            noise_counter: data.noise_step & 15,
            ..e
        }),
        psg_noise: noise_register(data.noise),
        ssg_mixer: segment_mixer(data, s.ssg_mixer),
        ..s
    }
}

fn write(writes: &mut Vec<RegisterWrite>, address: u16, value: u8)
    ensures
        final(writes)@ == old(writes)@.push(rw(address, value)),
{
    writes.push(RegisterWrite { address, value });
}

impl RegisterState {
    pub fn new() -> (state: Self)
        ensures
            registers_initial(state),
    {
        RegisterState {
            ssg_mixer: 0xbf,
            psg_noise: 0,
            ssg_frames: [None; 3],
            fm_frames: [None; 22],
            fm_keys: [0; 6],
            effect: None,
            effect_priority: 0,
        }
    }

    pub fn reset(&mut self)
        ensures
            registers_initial(*final(self)),
    {
        *self = RegisterState::new();
    }

    pub fn end_effect(&mut self, writes: &mut Vec<RegisterWrite>)
        ensures
            *final(self) == effect_ended(*old(self)),
            final(writes)@ == old(writes)@ + end_writes(*old(self)),
    {
        self.effect = None;
        self.effect_priority = 0;
        write(writes, 0x0a, 0);
        let mixer = self.ssg_mixer | 0x24;
        self.ssg_mixer = mixer;
        write(writes, 0x07, mixer);
        assert(writes@ =~= old(writes)@ + end_writes(*old(self)));
    }

    pub fn start_effect_segment(&mut self, index: usize, writes: &mut Vec<RegisterWrite>)
        ensures
            match old(self).effect {
                None => *final(self) == *old(self) && final(writes)@ == old(writes)@,
                Some(e) => match segment_spec(e.table as int, index as int) {
                    None => *final(self) == effect_ended(*old(self)) && final(writes)@ == old(writes)@ + end_writes(*old(self)),
                    Some(data) => *final(self) == segment_started(*old(self), e, index as int, data)
                        && final(writes)@ == old(writes)@ + segment_writes(data, segment_mixer(data, old(self).ssg_mixer)),
                },
            },
    {
        let effect = match self.effect {
            Some(effect) => effect,
            None => {
                return;
            },
        };
        let data = match effect_segment(effect.table, index) {
            Some(data) => data,
            None => {
                self.end_effect(writes);
                return;
            },
        };
        self.effect = Some(ActiveEffect {
            segment: index,
            remaining: data.count,
            tone: data.tone,
            noise: data.noise,
            tone_step: data.tone_step,
            noise_step: data.noise_step,
            noise_counter: data.noise_step & 15,
            ..effect
        });
        write(writes, 0x04, data.tone as u8);
        write(writes, 0x05, (data.tone >> 8) as u8);
        write(writes, 0x06, data.noise as u8);
        self.psg_noise = (if data.noise < 0 { 0 } else if data.noise > 31 { 31 } else { data.noise }) as u8;
        let mixer = (((data.mixer << 2) & 0x24) as u8) | (self.ssg_mixer & 0xdb);
        self.ssg_mixer = mixer;
        write(writes, 0x07, mixer);
        write(writes, 0x0a, data.volume as u8);
        write(writes, 0x0b, data.envelope as u8);
        write(writes, 0x0c, (data.envelope >> 8) as u8);
        write(writes, 0x0d, data.pattern as u8);
        assert(writes@ =~= old(writes)@ + segment_writes(data, mixer));
    }
}


/// One timer A tick of the playing effect's sweep: the tone moves by its
/// step; a noise sweep moves the noise every `step & 15` ticks by
/// `step >> 4`.
pub open spec fn swept(s: RegisterState, e: ActiveEffect) -> (RegisterState, Seq<RegisterWrite>) {
    let tone = wadd(e.tone, e.tone_step);
    let tone_writes = seq![rw(0x04, tone as u8), rw(0x05, (tone >> 8) as u8)];
    if e.noise_step != 0 {
        let counter = wsub(e.noise_counter, 1);
        if counter == 0 {
            let noise = wadd(e.noise, e.noise_step >> 4);
            (RegisterState {
                effect: Some(ActiveEffect { tone, noise_counter: e.noise_step & 15, noise, ..e }),
                psg_noise: noise_register(noise),
                ..s
            }, tone_writes.push(rw(0x06, noise as u8)))
        } else {
            (RegisterState { effect: Some(ActiveEffect { tone, noise_counter: counter, ..e }), ..s }, tone_writes)
        }
    } else {
        (RegisterState { effect: Some(ActiveEffect { tone, ..e }), ..s }, tone_writes)
    }
}

/// The state and writes of a timer A tick: the playing effect sweeps, moves
/// to its next segment when its count runs out, or ends after its last.
pub open spec fn effect_ticked(s: RegisterState) -> (RegisterState, Seq<RegisterWrite>) {
    match s.effect {
        None => (s, Seq::empty()),
        Some(e) => if e.remaining > 1 {
            let counted = ActiveEffect { remaining: (e.remaining - 1) as i32, ..e };
            swept(RegisterState { effect: Some(counted), ..s }, counted)
        } else if e.segment + 1 < effect_length(e.table as int) {
            match segment_spec(e.table as int, e.segment + 1) {
                Some(data) => (segment_started(s, e, e.segment + 1, data), segment_writes(data, segment_mixer(data, s.ssg_mixer))),
                None => (effect_ended(s), end_writes(s)),
            }
        } else {
            (effect_ended(s), end_writes(s))
        },
    }
}

/// The state and writes after an effect request: a start (of a built-in
/// effect, unless a higher-priority one plays) or a stop.
pub open spec fn effect_started(s: RegisterState, index: int, correction: u8) -> (RegisterState, Seq<RegisterWrite>) {
    if !(0 <= index < 11) || s.effect_priority > 1 {
        (s, Seq::empty())
    } else {
        let e = ActiveEffect {
            table: index as usize,
            segment: 0,
            remaining: 0,
            tone: 0,
            noise: 0,
            tone_step: 0,
            noise_step: 0,
            noise_counter: 0,
            correction,
        };
        let data = segment_spec(index, 0)->0;
        let primed = RegisterState { effect_priority: 1, effect: Some(e), ..s };
        (segment_started(primed, e, 0, data), segment_writes(data, segment_mixer(data, s.ssg_mixer)))
    }
}

/// The lowest effect (0 to 10) whose bit a rhythm mask sets, or -1.
pub open spec fn first_effect_bit(mask: u16, from: int) -> int
    decreases 11 - from,
{
    if from >= 11 || from < 0 {
        -1
    } else if mask & (1u16 << (from as u16)) != 0 {
        from
    } else {
        first_effect_bit(mask, from + 1)
    }
}

impl RegisterState {
    pub fn sweep_effect(&mut self, writes: &mut Vec<RegisterWrite>)
        ensures
            match old(self).effect {
                None => *final(self) == *old(self) && final(writes)@ == old(writes)@,
                Some(e) => *final(self) == swept(*old(self), e).0 && final(writes)@ == old(writes)@ + swept(*old(self), e).1,
            },
    {
        let mut effect = match self.effect {
            Some(effect) => effect,
            None => {
                return;
            },
        };
        effect.tone = effect.tone.wrapping_add(effect.tone_step);
        write(writes, 0x04, effect.tone as u8);
        write(writes, 0x05, (effect.tone >> 8) as u8);
        if effect.noise_step != 0 {
            effect.noise_counter = effect.noise_counter.wrapping_sub(1);
            if effect.noise_counter == 0 {
                effect.noise_counter = effect.noise_step & 15;
                effect.noise = effect.noise.wrapping_add(effect.noise_step >> 4);
                write(writes, 0x06, effect.noise as u8);
                self.psg_noise = (if effect.noise < 0 { 0 } else if effect.noise > 31 { 31 } else { effect.noise }) as u8;
            }
        }
        self.effect = Some(effect);
        assert(writes@ =~= old(writes)@ + swept(*old(self), old(self).effect->0).1);
    }

    pub fn timer_a_tick(&mut self, writes: &mut Vec<RegisterWrite>)
        ensures
            *final(self) == effect_ticked(*old(self)).0,
            final(writes)@ == old(writes)@ + effect_ticked(*old(self)).1,
    {
        let mut effect = match self.effect {
            Some(effect) => effect,
            None => {
                assert(old(writes)@ + Seq::<RegisterWrite>::empty() =~= old(writes)@);
                return;
            },
        };
        if effect.remaining > 1 {
            effect.remaining = effect.remaining - 1;
            self.effect = Some(effect);
            self.sweep_effect(writes);
            return;
        }
        let count = effect_segment_count(effect.table);
        if effect.segment < count && effect.segment + 1 < count {
            self.start_effect_segment(effect.segment + 1, writes);
        } else {
            self.end_effect(writes);
        }
    }

    pub fn start_effect(&mut self, index: usize, correction: u8, writes: &mut Vec<RegisterWrite>)
        ensures
            *final(self) == effect_started(*old(self), index as int, correction).0,
            final(writes)@ == old(writes)@ + effect_started(*old(self), index as int, correction).1,
    {
        if index >= 11 || self.effect_priority > 1 {
            assert(old(writes)@ + Seq::<RegisterWrite>::empty() =~= old(writes)@);
            return;
        }
        self.effect_priority = 1;
        self.effect = Some(ActiveEffect {
            table: index,
            segment: 0,
            remaining: 0,
            tone: 0,
            noise: 0,
            tone_step: 0,
            noise_step: 0,
            noise_counter: 0,
            correction,
        });
        self.start_effect_segment(0, writes);
    }

    pub fn apply_effect_request(&mut self, request: EffectRequest, writes: &mut Vec<RegisterWrite>)
        ensures
            match request {
                EffectRequest::Start { index, correction } => *final(self) == effect_started(*old(self), index as int, correction).0
                    && final(writes)@ == old(writes)@ + effect_started(*old(self), index as int, correction).1,
                EffectRequest::Stop => *final(self) == effect_ended(*old(self)) && final(writes)@ == old(writes)@ + end_writes(*old(self)),
            },
    {
        match request {
            EffectRequest::Start { index, correction } => self.start_effect(index as usize, correction, writes),
            EffectRequest::Stop => self.end_effect(writes),
        }
    }

    /// Starts the sound effect of the lowest of bits 0 to 10 a rhythm mask
    /// sets, if any.
    pub fn emit_rhythm_effect(&mut self, mask: u16, writes: &mut Vec<RegisterWrite>)
        ensures
            first_effect_bit(mask, 0) < 0 ==> *final(self) == *old(self) && final(writes)@ == old(writes)@,
            first_effect_bit(mask, 0) >= 0 ==> *final(self) == effect_started(*old(self), first_effect_bit(mask, 0), 3).0
                && final(writes)@ == old(writes)@ + effect_started(*old(self), first_effect_bit(mask, 0), 3).1,
    {
        let mut index: u16 = 0;
        while index < 11
            invariant
                index <= 11,
                first_effect_bit(mask, 0) == first_effect_bit(mask, index as int),
                *self == *old(self),
                writes@ == old(writes)@,
            decreases 11 - index,
        {
            if mask & (1u16 << index) != 0 {
                self.start_effect(index as usize, 3, writes);
                return;
            }
            index = index + 1;
        }
    }
}


/// The register bank and channel of an FM part (the FM3 extra parts share
/// channel 3 of the first bank).
pub open spec fn fm_address_spec(part: int) -> Option<(u16, usize)> {
    if 0 <= part <= 2 {
        Some((0u16, part as usize))
    } else if 3 <= part <= 5 {
        Some((0x100u16, (part - 3) as usize))
    } else if 11 <= part <= 13 {
        Some((0u16, 2usize))
    } else {
        None
    }
}

/// The six FM parts A to F take the channels of the two banks in order:
/// A to C channels 0 to 2 of the first bank, D to F channels 0 to 2 of
/// the second; no two of them share a bank and channel.
pub proof fn law_fm_parts_map_in_order(part: int, other: int)
    requires
        0 <= part <= 5,
        0 <= other <= 5,
    ensures
        fm_address_spec(part) == Some(((if part < 3 { 0u16 } else { 0x100u16 }), (part % 3) as usize)),
        part != other ==> fm_address_spec(part) != fm_address_spec(other),
{
}

pub fn fm_address(part: usize) -> (address: Option<(u16, usize)>)
    ensures
        address == fm_address_spec(part as int),
        part <= 5 ==> address == Some(((if part < 3 { 0u16 } else { 0x100u16 }), part % 3)),
{
    if part <= 2 {
        Some((0, part))
    } else if part <= 5 {
        Some((0x100, part - 3))
    } else if 11 <= part && part <= 13 {
        Some((0, 2))
    } else {
        None
    }
}

/// The first voice record (26 bytes) from `position` on whose number is
/// `voice`.
pub open spec fn voice_at(data: Seq<u8>, position: int, voice: u8) -> Option<int>
    decreases data.len() - position,
{
    if position < 0 || position + 26 > data.len() {
        None
    } else if data[position] == voice {
        Some(position)
    } else {
        voice_at(data, position + 26, voice)
    }
}

/// Where a program's voice record starts: the record with its number, or
/// the first record when none has it; none when the area holds no record.
pub open spec fn voice_record(data: Seq<u8>, offset: int, voice: u8) -> Option<int> {
    if offset + 26 > data.len() {
        None
    } else {
        match voice_at(data, offset, voice) {
            Some(position) => Some(position),
            None => Some(offset),
        }
    }
}

proof fn lemma_voice_at_bounds(data: Seq<u8>, position: int, voice: u8)
    ensures
        voice_at(data, position, voice) matches Some(p) ==> position <= p && p + 26 <= data.len() && p >= 0,
    decreases data.len() - position,
{
    if !(position < 0 || position + 26 > data.len()) && data[position] != voice {
        lemma_voice_at_bounds(data, position + 26, voice);
    }
}

pub fn find_voice(data: &[u8], program_offset: usize, voice: u8) -> (found: Option<usize>)
    ensures
        found == (match voice_record(data@, program_offset as int, voice) {
            Some(p) => Some(p as usize),
            None => None::<usize>,
        }),
        found matches Some(p) ==> p + 26 <= data@.len(),
{
    if program_offset > data.len() || data.len() - program_offset < 26 {
        return None;
    }
    let mut position = program_offset;
    while position <= data.len() && data.len() - position >= 26
        invariant
            program_offset <= position,
            program_offset + 26 <= data@.len(),
            voice_at(data@, program_offset as int, voice) == voice_at(data@, position as int, voice),
        decreases data@.len() - position,
    {
        if data[position] == voice {
            return Some(position);
        }
        position = position + 26;
    }
    Some(program_offset)
}

/// A write of register `address + 4 * slot` when the mask has the slot's
/// bit (0x80 for slot 0 down to 0x10 for slot 3).
pub open spec fn slot_write(mask: u8, slot: int, address: int, value: u8) -> Seq<RegisterWrite> {
    if mask & ((0x80u8 >> (slot as u8)) as u8) != 0 { seq![rw((address + 4 * slot) as u16, value)] } else { Seq::empty() }
}

/// The writes of four slot registers the mask selects, in slot order.
#[verifier::opaque]
pub open spec fn slot_writes(mask: u8, address: int, values: Seq<u8>) -> Seq<RegisterWrite> {
    slot_write(mask, 0, address, values[0]) + slot_write(mask, 1, address, values[1]) + slot_write(mask, 2, address, values[2])
        + slot_write(mask, 3, address, values[3])
}

/// The key-on register value for a channel.
pub open spec fn key_value(key: u8, base: u16, channel: usize) -> u8 {
    key | (channel as u8) | (if base != 0 { 4u8 } else { 0u8 })
}

/// A slot mask clamped into a byte.
pub open spec fn byte_mask(mask: i32) -> u8 {
    (if mask < 0 { 0 } else if mask > 0xff { 0xff } else { mask as int }) as u8
}

/// The writes that silence an FM part before a voice change: total level
/// and release rate of its slots at maximum, then its keys off.
#[verifier::opaque]
pub open spec fn silence_writes(base: u16, channel: usize, c: ChannelState, key: u8) -> Seq<RegisterWrite> {
    silence_prefix(base, channel, c.voice_mask as u8, 4) + seq![rw(0x28, key_value(key, base, channel))]
}

/// Which key-on byte a channel uses.
pub open spec fn key_slot(base: u16, channel: usize) -> int {
    (if base != 0 { 3int } else { 0int }) + channel as int
}

impl RegisterState {
    pub fn silence_fm_part(&mut self, base: u16, channel_index: usize, channel: &ChannelState, writes: &mut Vec<RegisterWrite>)
        requires
            base == 0 || base == 0x100,
            channel_index < 3,
        ensures
            ({
                let key = old(self).fm_keys@[key_slot(base, channel_index)] & !byte_mask(channel.slot_mask);
                &&& final(self).fm_keys@ == old(self).fm_keys@.update(key_slot(base, channel_index), key)
                &&& *final(self) == (RegisterState { fm_keys: final(self).fm_keys, ..*old(self) })
                &&& final(writes)@ == old(writes)@ + silence_writes(base, channel_index, *channel, key)
            }),
    {
        let offset = channel_index as u16;
        let voices = channel.voice_mask as u8;
        let mut slot: u8 = 0;
        let ghost start = writes@;
        while slot < 4
            invariant
                slot <= 4,
                base == 0 || base == 0x100,
                channel_index < 3,
                offset == channel_index,
                voices == channel.voice_mask as u8,
                writes@ == start + silence_prefix(base, channel_index, voices, slot as int),
            decreases 4 - slot,
        {
            let mask = 0x80u8 >> slot;
            if voices & mask != 0 {
                write(writes, base + 0x40 + offset + 4 * slot as u16, 127);
                write(writes, base + 0x80 + offset + 4 * slot as u16, 127);
            }
            proof {
                lemma_silence_prefix_step(base, channel_index, voices, slot as int);
            }
            slot = slot + 1;
            proof {
                assert(writes@ =~= start + silence_prefix(base, channel_index, voices, slot as int));
            }
        }
        let bank = if base != 0 { 3usize } else { 0usize };
        let slots = channel.slot_mask;
        let clamped = (if slots < 0 { 0 } else if slots > 0xff { 0xff } else { slots }) as u8;
        let key = self.fm_keys[bank + channel_index] & !clamped;
        self.fm_keys[bank + channel_index] = key;
        write(writes, 0x28, key | channel_index as u8 | if base != 0 { 4u8 } else { 0u8 });
        proof {
            reveal(silence_writes);
            assert(writes@ =~= old(writes)@ + silence_writes(base, channel_index, *channel, key));
        }
    }
}

/// The silencing writes of the first `n` slots.
pub open spec fn silence_prefix(base: u16, channel: usize, v: u8, n: int) -> Seq<RegisterWrite>
    decreases n,
{
    if n <= 0 {
        Seq::empty()
    } else {
        let tl = base as int + 0x40 + channel as int;
        let rr = base as int + 0x80 + channel as int;
        silence_prefix(base, channel, v, n - 1) + slot_write(v, n - 1, tl, 127) + slot_write(v, n - 1, rr, 127)
    }
}

proof fn lemma_silence_prefix_step(base: u16, channel: usize, v: u8, n: int)
    requires
        0 <= n < 4,
    ensures
        silence_prefix(base, channel, v, n + 1) == silence_prefix(base, channel, v, n)
            + slot_write(v, n, base as int + 0x40 + channel as int, 127) + slot_write(v, n, base as int + 0x80 + channel as int, 127),
{
}


/// The total-level registers a voice change writes: those of the carrier
/// slots stay with the volume, the others are written (by algorithm).
pub const CARRIER_TL_MASK: [u8; 8] = [0xee, 0xee, 0xee, 0xee, 0xcc, 0x88, 0x88, 0x00];

/// The algorithm/feedback byte a voice record gives a part: on the shared
/// FM3 channel without its first slot, the feedback stays the channel's.
pub open spec fn loaded_feedback(record_byte: u8, fm3_shared: bool, fm3_alg_fb: Option<i32>) -> u8 {
    if fm3_shared {
        (((match fm3_alg_fb { Some(v) => v, None => 0 }) as u8) & 0x38) | (record_byte & 7)
    } else {
        record_byte
    }
}

/// The part after a voice record is loaded.
pub open spec fn voice_loaded(c: ChannelState, record: Seq<u8>, feedback: u8) -> ChannelState {
    let carrier = algorithm_carrier((feedback & 7) as int);
    ChannelState {
        algorithm_feedback: feedback as i32,
        carrier,
        volume_mask: if c.volume_mask & 0x0f == 0 { carrier } else { c.volume_mask },
        secondary_volume_mask: if c.secondary_volume_mask & 0x0f == 0 { carrier } else { c.secondary_volume_mask },
        slot_tl: c.slot_tl,
        ..c
    }
}

/// The writes of a voice record: algorithm/feedback, then detune/multiple,
/// total levels (non-carriers only), rates, sustain and release of the
/// slots the part plays.
#[verifier::opaque]
pub open spec fn voice_writes(base: u16, channel: usize, voices: u8, record: Seq<u8>, feedback: u8) -> Seq<RegisterWrite> {
    let b = base as int + channel as int;
    let tl_mask = CARRIER_TL_MASK@[(feedback & 7) as int] & voices;
    seq![rw((b + 0xb0) as u16, feedback)]
        + slot_writes(voices, b + 0x30, record.subrange(1, 5))
        + slot_writes(tl_mask, b + 0x40, record.subrange(5, 9))
        + slot_writes(voices, b + 0x50, record.subrange(9, 13))
        + slot_writes(voices, b + 0x60, record.subrange(13, 17))
        + slot_writes(voices, b + 0x70, record.subrange(17, 21))
        + slot_writes(voices, b + 0x80, record.subrange(21, 25))
}

fn write_slots(writes: &mut Vec<RegisterWrite>, mask: u8, address: u16, data: &[u8], start: usize)
    requires
        start + 4 <= data@.len(),
        address as int + 12 <= u16::MAX,
    ensures
        final(writes)@ == old(writes)@ + slot_writes(mask, address as int, data@.subrange(start as int, start + 4)),
{
    let ghost values = data@.subrange(start as int, start + 4);
    let length = data.len();
    let mut slot: u8 = 0;
    while slot < 4
        invariant
            slot <= 4,
            start + 4 <= data@.len(),
            length == data@.len(),
            address as int + 12 <= u16::MAX,
            values == data@.subrange(start as int, start + 4),
            writes@ == old(writes)@ + slot_prefix(mask, address as int, values, slot as int),
        decreases 4 - slot,
    {
        if mask & (0x80u8 >> slot) != 0 {
            write(writes, address + 4 * slot as u16, data[start + slot as usize]);
        }
        slot = slot + 1;
        proof {
            assert(writes@ =~= old(writes)@ + slot_prefix(mask, address as int, values, slot as int));
        }
    }
    proof {
        assert(slot_prefix(mask, address as int, values, 4) =~= slot_writes(mask, address as int, values)) by {
            reveal_with_fuel(slot_prefix, 5);
            reveal(slot_writes);
        }
    }
}

/// The first `n` of four masked slot writes.
pub open spec fn slot_prefix(mask: u8, address: int, values: Seq<u8>, n: int) -> Seq<RegisterWrite>
    decreases n,
{
    if n <= 0 { Seq::empty() } else { slot_prefix(mask, address, values, n - 1) + slot_write(mask, n - 1, address, values[n - 1]) }
}

fn write_voice(writes: &mut Vec<RegisterWrite>, base: u16, index: usize, voices: u8, feedback: u8, data: &[u8], position: usize)
    requires
        base == 0 || base == 0x100,
        index < 3,
        position + 26 <= data@.len(),
    ensures
        final(writes)@ == old(writes)@ + voice_writes(base, index, voices, data@.subrange(position as int, position + 26), feedback),
{
    proof {
        assert(position + 26 <= data.len());
    }
    let tl_mask = CARRIER_TL_MASK[(feedback & 7) as usize] & voices;
    let offset = base + index as u16;
    write(writes, offset + 0xb0, feedback);
    write_slots(writes, voices, offset + 0x30, data, position + 1);
    write_slots(writes, tl_mask, offset + 0x40, data, position + 5);
    write_slots(writes, voices, offset + 0x50, data, position + 9);
    write_slots(writes, voices, offset + 0x60, data, position + 13);
    write_slots(writes, voices, offset + 0x70, data, position + 17);
    write_slots(writes, voices, offset + 0x80, data, position + 21);
    proof {
        let record = data@.subrange(position as int, position + 26);
        assert(record.subrange(1, 5) =~= data@.subrange(position + 1, position + 5));
        assert(record.subrange(5, 9) =~= data@.subrange(position + 5, position + 9));
        assert(record.subrange(9, 13) =~= data@.subrange(position + 9, position + 13));
        assert(record.subrange(13, 17) =~= data@.subrange(position + 13, position + 17));
        assert(record.subrange(17, 21) =~= data@.subrange(position + 17, position + 21));
        assert(record.subrange(21, 25) =~= data@.subrange(position + 21, position + 25));
        let b = offset as int;
        assert(writes@ =~= old(writes)@ + seq![rw((b + 0xb0) as u16, feedback)]
            + slot_writes(voices, b + 0x30, data@.subrange(position + 1, position + 5))
            + slot_writes(tl_mask, b + 0x40, data@.subrange(position + 5, position + 9))
            + slot_writes(voices, b + 0x50, data@.subrange(position + 9, position + 13))
            + slot_writes(voices, b + 0x60, data@.subrange(position + 13, position + 17))
            + slot_writes(voices, b + 0x70, data@.subrange(position + 17, position + 21))
            + slot_writes(voices, b + 0x80, data@.subrange(position + 21, position + 25)));
        assert(voice_writes(base, index, voices, record, feedback) =~= seq![rw((b + 0xb0) as u16, feedback)]
            + slot_writes(voices, b + 0x30, data@.subrange(position + 1, position + 5))
            + slot_writes(tl_mask, b + 0x40, data@.subrange(position + 5, position + 9))
            + slot_writes(voices, b + 0x50, data@.subrange(position + 9, position + 13))
            + slot_writes(voices, b + 0x60, data@.subrange(position + 13, position + 17))
            + slot_writes(voices, b + 0x70, data@.subrange(position + 17, position + 21))
            + slot_writes(voices, b + 0x80, data@.subrange(position + 21, position + 25))) by {
            reveal(voice_writes);
        }
    }
}

impl RegisterState {
    /// Loads a part's voice into an FM channel: the program is looked up in
    /// the voice area, the channel silenced, the part's carrier masks and
    /// levels set and the record written. Returns the algorithm/feedback
    /// byte when the part is on the shared FM3 channel.
    #[verifier::rlimit(100)]
    #[verifier::spinoff_prover]
    pub fn program_change(
        &mut self,
        part: usize,
        channel: &mut ChannelState,
        data: &[u8],
        program_offset: usize,
        fm3_alg_fb: Option<i32>,
        writes: &mut Vec<RegisterWrite>,
    ) -> (result: Option<i32>)
        requires
            old(channel).wf(),
        ensures
            final(channel).wf(),
            ({
                let voice = byte_mask(old(channel).voice_number);
                match (fm_address_spec(part as int), voice_record(data@, program_offset as int, voice)) {
                    (Some((base, index)), Some(position)) => {
                        let record = data@.subrange(position, position + 26);
                        let shared = base == 0 && index == 2;
                        let feedback = loaded_feedback(record[25], shared && old(channel).slot_mask & 0x10 == 0, fm3_alg_fb);
                        let key = old(self).fm_keys@[key_slot(base, index)] & !byte_mask(old(channel).slot_mask);
                        &&& final(channel).slot_tl@ == seq![record[5] as i32, record[6] as i32, record[7] as i32, record[8] as i32]
                        &&& *final(channel) == (ChannelState { slot_tl: final(channel).slot_tl, ..voice_loaded(*old(channel), record, feedback) })
                        &&& final(self).fm_keys@ == old(self).fm_keys@.update(key_slot(base, index), key)
                        &&& *final(self) == (RegisterState { fm_keys: final(self).fm_keys, ..*old(self) })
                        &&& final(writes)@ == old(writes)@ + silence_writes(base, index, *old(channel), key)
                            + voice_writes(base, index, old(channel).voice_mask as u8, record, feedback)
                        &&& result == (if shared { Some(feedback as i32) } else { None::<i32> })
                    },
                    _ => {
                        &&& result is None
                        &&& *final(self) == *old(self)
                        &&& *final(channel) == *old(channel)
                        &&& final(writes)@ == old(writes)@
                    },
                }
            }),
    {
        let (base, index) = match fm_address(part) {
            Some(address) => address,
            None => {
                return None;
            },
        };
        let number = channel.voice_number;
        let voice = (if number < 0 { 0 } else if number > 255 { 255 } else { number }) as u8;
        let position = match find_voice(data, program_offset, voice) {
            Some(position) => position,
            None => {
                return None;
            },
        };
        proof {
            lemma_voice_at_bounds(data@, program_offset as int, voice);
            assert(position + 26 <= data.len());
        }
        let ghost before = writes@;
        let ghost original = *channel;
        self.silence_fm_part(base, index, channel, writes);
        let ghost silenced = writes@;
        let record_feedback = data[position + 25];
        let shared = base == 0 && index == 2;
        let feedback: u8 = if shared && channel.slot_mask & 0x10 == 0 {
            let held = match fm3_alg_fb { Some(v) => v, None => 0 };
            ((#[verifier::truncate] (held as u8)) & 0x38) | (record_feedback & 7)
        } else {
            record_feedback
        };
        let algorithm = (feedback & 7) as usize;
        channel.algorithm_feedback = feedback as i32;
        channel.carrier = crate::pmd::commands::carrier_for_algorithm(algorithm as i32);
        if channel.volume_mask & 0x0f == 0 {
            channel.volume_mask = channel.carrier;
        }
        if channel.secondary_volume_mask & 0x0f == 0 {
            channel.secondary_volume_mask = channel.carrier;
        }
        channel.slot_tl = [data[position + 5] as i32, data[position + 6] as i32, data[position + 7] as i32, data[position + 8] as i32];
        let voices = channel.voice_mask as u8;
        write_voice(writes, base, index, voices, feedback, data, position);
        proof {
            let record = data@.subrange(position as int, position + 26);
            assert(writes@ =~= before + silence_writes(base, index, original, self.fm_keys@[key_slot(base, index)])
                + voice_writes(base, index, voices, record, feedback));
            assert(channel.slot_tl@ =~= seq![record[5] as i32, record[6] as i32, record[7] as i32, record[8] as i32]);
        }
        if shared {
            Some(feedback as i32)
        } else {
            None
        }
    }
}


/// An FM F-number and block renormalised (the block a multiple of 0x800).
pub open spec fn block_calc(block: int, fnum: int) -> int {
    if fnum >= 0x26a { fm_up(block, fnum) } else { fm_down(block, fnum) }
}

pub fn fm_block_calc(start_block: i32, start_fnum: i32) -> (pitch: i32)
    requires
        0 <= start_block <= 0x3800,
        start_block % 0x800 == 0,
    ensures
        pitch == block_calc(start_block as int, start_fnum as int),
        0 <= pitch <= 0x3fff,
{
    let ghost start_f = start_fnum as int;
    let mut block = start_block;
    let mut fnum = start_fnum;
    if fnum >= 0x26a {
        while fnum >= 0x26a * 2
            invariant
                0 <= block <= 0x3800,
                block % 0x800 == 0,
                fnum >= 0x26a,
                fm_up(block as int, fnum as int) == fm_up(start_block as int, start_f),
                start_f == start_fnum,
                start_f >= 0x26a,
            decreases 0x4000 - block,
        {
            if block + 0x800 >= 0x4000 {
                let capped = if fnum >= 0x800 { 0x7ff } else { fnum };
                return 0x3800 + capped;
            }
            block = block + 0x800;
            fnum = fnum - 0x26a;
        }
        return block + fnum;
    }
    while fnum < 0x26a
        invariant
            0 <= block <= 0x3800,
            block % 0x800 == 0,
            fnum < 0x26a + 0x26a,
            fm_down(block as int, fnum as int) == fm_down(start_block as int, start_f),
            start_f == start_fnum,
            start_f < 0x26a,
        decreases block,
    {
        if block - 0x800 < 0 {
            return if fnum < 8 { 8 } else { fnum };
        }
        block = block - 0x800;
        fnum = fnum + 0x26a;
    }
    block + fnum
}

/// A slot's F-number on the FM3 channel in its separate-frequency mode:
/// the part's base pitch plus the slot's detune and the LFOs that apply to
/// the slot.
pub open spec fn fm3_slot_fnum(state: VoiceFrame, slot: int, bit: u8, first_mask: u8, second_mask: u8) -> int {
    let base = wadd(state.fm_base_pitch & 0x07ff, state.slot_detune@[slot]);
    let with_first = if state.lfoswi & 1 != 0 && first_mask & bit != 0 { wadd(base, state.lfo_data) } else { base };
    let with_second = if state.lfoswi & 0x10 != 0 && second_mask & bit != 0 { wadd(with_first, state.secondary_lfo_data) } else { with_first };
    block_calc((state.fm_base_pitch & 0x3800) as int, with_second as int)
}

proof fn lemma_pitch_block(pitch: i32)
    ensures
        0 <= pitch & 0x3800 <= 0x3800,
        (pitch & 0x3800) % 0x800 == 0,
{
    assert(0 <= pitch & 0x3800 <= 0x3800 && (pitch & 0x3800) % 0x800 == 0) by (bit_vector);
}

fn fm3_slot_pitch(state: VoiceFrame, slot: usize, bit: u8, first_mask: u8, second_mask: u8) -> (pitch: u16)
    requires
        slot < 4,
    ensures
        pitch == fm3_slot_fnum(state, slot as int, bit, first_mask, second_mask),
{
    proof { lemma_pitch_block(state.fm_base_pitch); }
    let mut fnum = (state.fm_base_pitch & 0x07ff).wrapping_add(state.slot_detune[slot]);
    if state.lfoswi & 1 != 0 && first_mask & bit != 0 {
        fnum = fnum.wrapping_add(state.lfo_data);
    }
    if state.lfoswi & 0x10 != 0 && second_mask & bit != 0 {
        fnum = fnum.wrapping_add(state.secondary_lfo_data);
    }
    fm_block_calc(state.fm_base_pitch & 0x3800, fnum) as u16
}

/// The slot masks the FM3 LFOs apply to (all four slots for a mask
/// without carrier bits).
pub open spec fn fm3_lfo_mask(mask: i32) -> u8 {
    if mask & 0x0f == 0 { 0xf0 } else { mask as u8 }
}

/// The pitch writes of one FM3 slot, when the part plays it.
pub open spec fn fm3_slot_writes(state: VoiceFrame, slot: int, bit: u8, high: u16, low: u16) -> Seq<RegisterWrite> {
    if (state.slot_mask as u8) & bit != 0 {
        let pitch = fm3_slot_fnum(state, slot, bit, fm3_lfo_mask(state.volume_mask), fm3_lfo_mask(state.secondary_volume_mask)) as u16;
        seq![rw(high, (pitch >> 8) as u8), rw(low, pitch as u8)]
    } else {
        Seq::empty()
    }
}

/// The FM3 pitch writes of a part: one F-number per slot it plays.
pub open spec fn fm3_pitch_writes(state: VoiceFrame) -> Seq<RegisterWrite> {
    fm3_slot_writes(state, 3, 0x80, 0xa6, 0xa2) + fm3_slot_writes(state, 2, 0x40, 0xac, 0xa8)
        + fm3_slot_writes(state, 1, 0x20, 0xae, 0xaa) + fm3_slot_writes(state, 0, 0x10, 0xad, 0xa9)
}

fn emit_fm3_slot(state: VoiceFrame, slot: usize, bit: u8, high: u16, low: u16, writes: &mut Vec<RegisterWrite>)
    requires
        slot < 4,
    ensures
        final(writes)@ == old(writes)@ + fm3_slot_writes(state, slot as int, bit, high, low),
{
    if (state.slot_mask as u8) & bit != 0 {
        let first = if state.volume_mask & 0x0f == 0 { 0xf0 } else { state.volume_mask as u8 };
        let second = if state.secondary_volume_mask & 0x0f == 0 { 0xf0 } else { state.secondary_volume_mask as u8 };
        let pitch = fm3_slot_pitch(state, slot, bit, first, second);
        write(writes, high, (pitch >> 8) as u8);
        write(writes, low, pitch as u8);
        assert(writes@ =~= old(writes)@ + fm3_slot_writes(state, slot as int, bit, high, low));
    } else {
        assert(writes@ =~= old(writes)@ + fm3_slot_writes(state, slot as int, bit, high, low));
    }
}

pub fn emit_fm3_special_pitch(state: VoiceFrame, writes: &mut Vec<RegisterWrite>)
    ensures
        final(writes)@ == old(writes)@ + fm3_pitch_writes(state),
{
    emit_fm3_slot(state, 3, 0x80, 0xa6, 0xa2, writes);
    emit_fm3_slot(state, 2, 0x40, 0xac, 0xa8, writes);
    emit_fm3_slot(state, 1, 0x20, 0xae, 0xaa, writes);
    emit_fm3_slot(state, 0, 0x10, 0xad, 0xa9, writes);
    assert(writes@ =~= old(writes)@ + fm3_pitch_writes(state));
}


/// The SSG volume register value of a frame: the base volume scaled by
/// the volume-down setting, the envelope applied (scaling in extended mode,
/// adding otherwise, within 0 to 15), then the volume LFO; silent when the
/// scaled or enveloped volume is not positive (the LFO is then ignored).
#[verifier::opaque]
pub open spec fn ssg_volume(state: VoiceFrame) -> i32 {
    let reduced = wmul(wsub(256, state.ssg_volume_down), state.base_volume) >> 8i32;
    let (enveloped, silent) = if reduced <= 0 {
        (0i32, true)
    } else if state.envelope_mode == -1i32 {
        if state.envelope == 0 {
            (0i32, true)
        } else {
            let scaled = wadd(wmul(reduced, wadd(state.envelope, 1)) >> 3i32, 1) >> 1i32;
            (if scaled < 0 { 0i32 } else { scaled }, false)
        }
    } else {
        let envelope = if state.envelope_mode == 3 { 0i32 } else { state.envelope };
        let level = wadd(reduced, envelope);
        if level <= 0 { (0i32, true) } else { (if level > 15 { 15i32 } else { level }, false) }
    };
    if silent {
        0
    } else {
        let total = wadd(enveloped, state.volume_lfo);
        if total < 0 { 0 } else if total > 15 { 15 } else { total }
    }
}

/// Whether a note byte is a rest.
pub open spec fn is_rest(note: Option<u8>) -> bool {
    note matches Some(v) && v & 0x0f == 0x0f
}

/// The outcome of an SSG frame on channel `index`: the mixer and noise
/// registers afterwards and the writes. Volume and tone period are written
/// when they must be (volume first for a new voice, pitch first otherwise);
/// a keyed note (not a rest) then writes the mixer, with tone and noise
/// enables from the part's pattern, and the noise period when no effect
/// owns it and it changed.
pub open spec fn ssg_frame_result(s: RegisterState, index: int, note: Option<u8>, state: VoiceFrame, psg_noise: i32)
    -> (u8, u8, Seq<RegisterWrite>)
{
    let previous = s.ssg_frames@[index];
    let is_new = note is Some;
    let volume = ssg_volume(state);
    let pitch = if state.pitch < 0 { 0 } else if state.pitch > 0x0fff { 0x0fff } else { state.pitch };
    let changed = match previous {
        Some(p) => p.1 != volume,
        None => true,
    };
    let write_volume = state.volume_write_allowed && (is_new || state.force_volume_write || changed);
    let write_pitch = state.pitch_enabled && (is_new || state.force_pitch_write);
    let volume_writes = if write_volume { seq![rw((0x08 + index) as u16, volume as u8)] } else { Seq::empty() };
    let pitch_writes = if write_pitch {
        seq![rw((index * 2) as u16, pitch as u8), rw((index * 2 + 1) as u16, (pitch >> 8) as u8)]
    } else {
        Seq::empty()
    };
    let voice = is_new || state.force_key_on;
    let first = if voice { volume_writes + pitch_writes } else { pitch_writes + volume_writes };
    if voice && !is_rest(note) {
        let key_mask = ((1u8 << (index as u8)) | (1u8 << ((index + 3) as u8))) as u8;
        let pattern = (if state.psg_pattern < 0 { 0 } else if state.psg_pattern > 0xff { 0xff } else { state.psg_pattern as int }) as u8;
        let mixer = (s.ssg_mixer | key_mask) & !(key_mask & pattern);
        let noise = noise_register(psg_noise);
        if s.effect is None && noise != s.psg_noise {
            (mixer, noise, first + seq![rw(0x07, mixer), rw(0x06, noise)])
        } else {
            (mixer, s.psg_noise, first + seq![rw(0x07, mixer)])
        }
    } else {
        (s.ssg_mixer, s.psg_noise, first)
    }
}

fn ssg_frame_volume(state: &VoiceFrame) -> (volume: i32)
    ensures
        volume == ssg_volume(*state),
{
    proof {
        reveal(ssg_volume);
    }
    let reduced = 256i32.wrapping_sub(state.ssg_volume_down).wrapping_mul(state.base_volume) >> 8i32;
    let (enveloped, silent): (i32, bool) = if reduced <= 0 {
        (0, true)
    } else if state.envelope_mode == -1 {
        if state.envelope == 0 {
            (0, true)
        } else {
            let scaled = (reduced.wrapping_mul(state.envelope.wrapping_add(1)) >> 3i32).wrapping_add(1) >> 1i32;
            (if scaled < 0 { 0 } else { scaled }, false)
        }
    } else {
        let envelope = if state.envelope_mode == 3 { 0 } else { state.envelope };
        let level = reduced.wrapping_add(envelope);
        if level <= 0 { (0, true) } else { (if level > 15 { 15 } else { level }, false) }
    };
    if silent {
        0
    } else {
        let total = enveloped.wrapping_add(state.volume_lfo);
        if total < 0 { 0 } else if total > 15 { 15 } else { total }
    }
}

impl RegisterState {
    #[verifier::rlimit(40)]
    pub fn emit_ssg_frame(&mut self, index: usize, note: Option<u8>, state: VoiceFrame, psg_noise: i32, writes: &mut Vec<RegisterWrite>)
        requires
            index < 3,
        ensures
            ({
                let (mixer, noise, _) = ssg_frame_result(*old(self), index as int, note, state, psg_noise);
                &&& final(self).ssg_frames@ == old(self).ssg_frames@.update(index as int, Some((state.pitch, ssg_volume(state))))
                &&& *final(self) == (RegisterState { ssg_frames: final(self).ssg_frames, ssg_mixer: mixer, psg_noise: noise, ..*old(self) })
            }),
            final(writes)@ == old(writes)@ + ssg_frame_result(*old(self), index as int, note, state, psg_noise).2,
    {
        let previous = self.ssg_frames[index];
        let is_new = note.is_some();
        let rest = match note { Some(v) => v & 0x0f == 0x0f, None => false };
        let volume = ssg_frame_volume(&state);
        let pitch = if state.pitch < 0 { 0 } else if state.pitch > 0x0fff { 0x0fff } else { state.pitch };
        let changed = match previous { Some((_, old_volume)) => old_volume != volume, None => true };
        let write_volume = state.volume_write_allowed && (is_new || state.force_volume_write || changed);
        let write_pitch = state.pitch_enabled && (is_new || state.force_pitch_write);
        let offset = index as u16;
        if is_new || state.force_key_on {
            if write_volume {
                write(writes, 0x08 + offset, volume as u8);
            }
            if write_pitch {
                write(writes, offset * 2, pitch as u8);
                write(writes, offset * 2 + 1, (pitch >> 8) as u8);
            }
        } else {
            if write_pitch {
                write(writes, offset * 2, pitch as u8);
                write(writes, offset * 2 + 1, (pitch >> 8) as u8);
            }
            if write_volume {
                write(writes, 0x08 + offset, volume as u8);
            }
        }
        let ghost after_first = writes@;
        if (is_new || state.force_key_on) && !rest {
            let key_mask = (1u8 << (index as u8)) | (1u8 << ((index + 3) as u8));
            let pattern = (if state.psg_pattern < 0 { 0 } else if state.psg_pattern > 0xff { 0xff } else { state.psg_pattern }) as u8;
            let mixer = (self.ssg_mixer | key_mask) & !(key_mask & pattern);
            self.ssg_mixer = mixer;
            write(writes, 0x07, mixer);
            let noise = (if psg_noise < 0 { 0 } else if psg_noise > 31 { 31 } else { psg_noise }) as u8;
            if self.effect.is_none() && noise != self.psg_noise {
                self.psg_noise = noise;
                write(writes, 0x06, noise);
            }
        }
        self.ssg_frames[index] = Some((state.pitch, volume));
        assert(writes@ =~= old(writes)@ + ssg_frame_result(*old(self), index as int, note, state, psg_noise).2);
    }
}


/// A value clamped into 0 to 255.
pub open spec fn byte_range(value: i32) -> i32 {
    if value < 0 { 0 } else if value > 255 { 255 } else { value }
}

/// The FM volume of a frame: the part's volume scaled by the volume-down
/// setting (a negative scale counts as none), within 0 to 127.
pub open spec fn fm_volume(state: VoiceFrame) -> i32 {
    let scale = wsub(256, state.fm_volume_down);
    let scaled = wmul(if scale < 0 { 0i32 } else { scale }, state.volume) >> 8i32;
    if scaled < 0 { 0 } else if scaled > 127 { 127 } else { scaled }
}

/// The FM volume of a frame is the part's volume scaled by the share of
/// 256 that the volume-down setting leaves, rounded down and kept at 127
/// at most.
pub proof fn law_fm_volume_scaled_down(state: VoiceFrame)
    requires
        0 <= state.fm_volume_down <= 256,
        0 <= state.volume <= 0x7fff,
    ensures
        fm_volume(state) as int == vstd::math::min(127, (256 - state.fm_volume_down) * state.volume / 256),
{
    let product = (256 - state.fm_volume_down) * state.volume;
    assert(0 <= product <= 256 * 0x7fff) by (nonlinear_arith)
        requires
            0 <= 256 - state.fm_volume_down <= 256,
            0 <= state.volume <= 0x7fff,
            product == (256 - state.fm_volume_down) * state.volume;
    crate::bits::lemma_i32_shr_is_div(product as i32, 8);
    vstd::arithmetic::power2::lemma2_to64();
}

/// The total level an FM slot gets for a frame, or none when the slot is
/// not keyed by the part or is neither a carrier nor under a volume LFO.
/// A carrier starts from the inverted volume, a modulator from the middle;
/// each volume LFO covering the slot subtracts its value (within 0 to 255);
/// the slot's own total level is added and the middle taken off again, the
/// sum capped at 255 and the register taking the low byte.
#[verifier::opaque]
pub open spec fn fm_slot_level(state: VoiceFrame, volume: i32, bit: u8, index: int) -> Option<u8> {
    let carrier = (state.carrier as u8) & bit != 0;
    let first = state.lfoswi & 2 != 0 && (state.volume_mask as u8) & bit != 0;
    let second = state.lfoswi & 0x20 != 0 && (state.secondary_volume_mask as u8) & bit != 0;
    if (state.slot_mask as u8) & bit == 0 || (!carrier && !first && !second) {
        None
    } else {
        let start = if carrier { (255 - volume) as i32 } else { 128i32 };
        let lowered = if first { byte_range(wsub(start, state.lfo_data)) } else { start };
        let table = if second { byte_range(wsub(lowered, state.secondary_lfo_data)) } else { lowered };
        let sum = wadd(state.slot_tl[index], table);
        let capped = if sum > 255 { 255i32 } else { sum };
        let level = if capped < i32::MIN + 128 { i32::MIN } else { (capped - 128) as i32 };
        Some(level as u8)
    }
}

/// The total level write of one FM slot, if any.
pub open spec fn fm_slot_write(state: VoiceFrame, volume: i32, base: u16, channel: usize, bit: u8, index: int, address: int)
    -> Seq<RegisterWrite>
{
    match fm_slot_level(state, volume, bit, index) {
        Some(level) => seq![rw((base + 0x40 + channel + address * 4) as u16, level)],
        None => Seq::empty(),
    }
}

/// The total level writes of an FM frame, slots in the order 4, 2, 3, 1.
#[verifier::opaque]
pub open spec fn fm_volume_writes(state: VoiceFrame, base: u16, channel: usize) -> Seq<RegisterWrite> {
    let volume = fm_volume(state);
    fm_slot_write(state, volume, base, channel, 0x80, 3, 3) + fm_slot_write(state, volume, base, channel, 0x40, 1, 1)
        + fm_slot_write(state, volume, base, channel, 0x20, 2, 2) + fm_slot_write(state, volume, base, channel, 0x10, 0, 0)
}

/// The pitch writes of an FM frame: the FM3 slot pitches when the part
/// plays channel 3 in special mode, else block and F-number, high byte
/// first.
#[verifier::opaque]
pub open spec fn fm_pitch_writes(part: int, state: VoiceFrame, base: u16, channel: usize, ch3_mode: u8) -> Seq<RegisterWrite> {
    if (part == 2 || 11 <= part <= 13) && base == 0 && ch3_mode != 0x3f {
        fm3_pitch_writes(state)
    } else {
        let pitch = (if state.pitch < 0 { 0 } else if state.pitch > 0x3fff { 0x3fff } else { state.pitch as int }) as u16;
        seq![rw((base + 0xa4 + channel) as u16, (pitch >> 8u16) as u8), rw((base + 0xa0 + channel) as u16, pitch as u8)]
    }
}

/// Whether an FM frame keys its slots on: a new note that is not a rest,
/// or a forced key-on.
pub open spec fn fm_keys_on(note: Option<u8>, state: VoiceFrame) -> bool {
    (note is Some && !is_rest(note)) || state.force_key_on
}

/// The key-on byte an FM frame leaves: the slots keyed by the delayed-slot
/// mask while the delay runs, else by the part's slot mask, added to those
/// already on.
pub open spec fn fm_key_after(s: RegisterState, state: VoiceFrame, base: u16, channel: usize) -> u8 {
    let mask = if state.sdelay_counter != 0 { state.sdelay_mask } else { state.slot_mask };
    s.fm_keys@[key_slot(base, channel)] | byte_mask(mask)
}

/// The writes of an FM frame: total levels when the note is new, a rewrite
/// is forced or the volume changed since the part's last frame; pitch when
/// enabled and new or forced; the key-on register when keyed.
pub open spec fn fm_frame_writes(s: RegisterState, part: int, note: Option<u8>, state: VoiceFrame, ch3_mode: u8)
    -> Seq<RegisterWrite>
{
    let (base, channel) = fm_address_spec(part).unwrap();
    let is_new = note is Some;
    let changed = match s.fm_frames@[part] {
        Some(previous) => previous.volume != state.volume,
        None => true,
    };
    let volume_writes = if is_new || state.force_volume_write || changed {
        fm_volume_writes(state, base, channel)
    } else {
        Seq::empty()
    };
    let pitch_writes = if state.pitch_enabled && (is_new || state.force_pitch_write) {
        fm_pitch_writes(part, state, base, channel, ch3_mode)
    } else {
        Seq::empty()
    };
    let key_writes = if fm_keys_on(note, state) {
        seq![rw(0x28, key_value(fm_key_after(s, state, base, channel), base, channel))]
    } else {
        Seq::empty()
    };
    volume_writes + pitch_writes + key_writes
}

fn emit_fm_slot_volume(
    state: &VoiceFrame,
    volume: i32,
    base: u16,
    channel: usize,
    bit: u8,
    index: usize,
    address: u16,
    writes: &mut Vec<RegisterWrite>,
)
    requires
        base == 0 || base == 0x100,
        channel < 3,
        index < 4,
        address < 4,
        0 <= volume <= 127,
    ensures
        final(writes)@ == old(writes)@ + fm_slot_write(*state, volume, base, channel, bit, index as int, address as int),
{
    proof {
        reveal(fm_slot_level);
    }
    let carrier = (state.carrier as u8) & bit != 0;
    let first = state.lfoswi & 2 != 0 && (state.volume_mask as u8) & bit != 0;
    let second = state.lfoswi & 0x20 != 0 && (state.secondary_volume_mask as u8) & bit != 0;
    if (state.slot_mask as u8) & bit == 0 || (!carrier && !first && !second) {
        assert(writes@ =~= old(writes)@ + fm_slot_write(*state, volume, base, channel, bit, index as int, address as int));
        return;
    }
    let start: i32 = if carrier { 255 - volume } else { 128 };
    let mut table: i32 = start;
    if first {
        let lowered = table.wrapping_sub(state.lfo_data);
        table = if lowered < 0 { 0 } else if lowered > 255 { 255 } else { lowered };
    }
    if second {
        let lowered = table.wrapping_sub(state.secondary_lfo_data);
        table = if lowered < 0 { 0 } else if lowered > 255 { 255 } else { lowered };
    }
    let sum = state.slot_tl[index].wrapping_add(table);
    let capped: i32 = if sum > 255 { 255 } else { sum };
    let level: i32 = if capped < i32::MIN + 128 { i32::MIN } else { capped - 128 };
    write(writes, base + 0x40 + channel as u16 + address * 4, level as u8);
    assert(writes@ =~= old(writes)@ + fm_slot_write(*state, volume, base, channel, bit, index as int, address as int));
}

fn fm_frame_volume(state: &VoiceFrame) -> (volume: i32)
    ensures
        volume == fm_volume(*state),
        0 <= volume <= 127,
{
    let scale = 256i32.wrapping_sub(state.fm_volume_down);
    let scaled = (if scale < 0 { 0i32 } else { scale }).wrapping_mul(state.volume) >> 8i32;
    if scaled < 0 { 0 } else if scaled > 127 { 127 } else { scaled }
}

#[verifier::rlimit(30)]
fn emit_fm_volumes(state: &VoiceFrame, base: u16, channel: usize, writes: &mut Vec<RegisterWrite>)
    requires
        base == 0 || base == 0x100,
        channel < 3,
    ensures
        final(writes)@ == old(writes)@ + fm_volume_writes(*state, base, channel),
{
    let volume = fm_frame_volume(state);
    emit_fm_slot_volume(state, volume, base, channel, 0x80, 3, 3, writes);
    emit_fm_slot_volume(state, volume, base, channel, 0x40, 1, 1, writes);
    emit_fm_slot_volume(state, volume, base, channel, 0x20, 2, 2, writes);
    emit_fm_slot_volume(state, volume, base, channel, 0x10, 0, 0, writes);
    proof {
        reveal(fm_volume_writes);
    }
    assert(writes@ =~= old(writes)@ + fm_volume_writes(*state, base, channel));
}

fn emit_fm_pitch(part: usize, state: VoiceFrame, base: u16, channel: usize, ch3_mode: u8, writes: &mut Vec<RegisterWrite>)
    requires
        base == 0 || base == 0x100,
        channel < 3,
    ensures
        final(writes)@ == old(writes)@ + fm_pitch_writes(part as int, state, base, channel, ch3_mode),
{
    proof {
        reveal(fm_pitch_writes);
    }
    if (part == 2 || (11 <= part && part <= 13)) && base == 0 && ch3_mode != 0x3f {
        emit_fm3_special_pitch(state, writes);
    } else {
        let pitch = (if state.pitch < 0 { 0 } else if state.pitch > 0x3fff { 0x3fff } else { state.pitch }) as u16;
        write(writes, base + 0xa4 + channel as u16, (pitch >> 8) as u8);
        write(writes, base + 0xa0 + channel as u16, pitch as u8);
    }
    assert(writes@ =~= old(writes)@ + fm_pitch_writes(part as int, state, base, channel, ch3_mode));
}

impl RegisterState {
    pub fn emit_fm_frame(&mut self, part: usize, note: Option<u8>, state: VoiceFrame, ch3_mode: u8, writes: &mut Vec<RegisterWrite>)
        ensures
            fm_address_spec(part as int) is None ==> *final(self) == *old(self) && final(writes)@ == old(writes)@,
            fm_address_spec(part as int) matches Some((base, channel)) ==> {
                &&& final(self).fm_frames@ == old(self).fm_frames@.update(part as int, Some(state))
                &&& final(self).fm_keys@ == (if fm_keys_on(note, state) {
                    old(self).fm_keys@.update(key_slot(base, channel), fm_key_after(*old(self), state, base, channel))
                } else {
                    old(self).fm_keys@
                })
                &&& *final(self) == (RegisterState { fm_frames: final(self).fm_frames, fm_keys: final(self).fm_keys, ..*old(self) })
                &&& final(writes)@ == old(writes)@ + fm_frame_writes(*old(self), part as int, note, state, ch3_mode)
            },
    {
        let (base, channel) = match fm_address(part) {
            Some(address) => address,
            None => return,
        };
        let is_new = note.is_some();
        let changed = match self.fm_frames[part] {
            Some(previous) => previous.volume != state.volume,
            None => true,
        };
        if is_new || state.force_volume_write || changed {
            emit_fm_volumes(&state, base, channel, writes);
        }
        if state.pitch_enabled && (is_new || state.force_pitch_write) {
            emit_fm_pitch(part, state, base, channel, ch3_mode, writes);
        }
        let keyed = match note {
            Some(value) => value & 0x0f != 0x0f,
            None => false,
        };
        if keyed || state.force_key_on {
            let mask = if state.sdelay_counter != 0 { state.sdelay_mask } else { state.slot_mask };
            let clamped = (if mask < 0 { 0 } else if mask > 0xff { 0xff } else { mask }) as u8;
            let bank = if base != 0 { 3usize } else { 0usize };
            let key = self.fm_keys[bank + channel] | clamped;
            self.fm_keys[bank + channel] = key;
            write(writes, 0x28, key | channel as u8 | if base != 0 { 4u8 } else { 0u8 });
        }
        self.fm_frames[part] = Some(state);
        assert(writes@ =~= old(writes)@ + fm_frame_writes(*old(self), part as int, note, state, ch3_mode));
    }
}


/// The key-on byte a key-off leaves: the slots of the part's last frame
/// (all four when it had none) taken off.
pub open spec fn key_off_after(s: RegisterState, part: int, base: u16, channel: usize) -> u8 {
    let mask = match s.fm_frames@[part] {
        Some(frame) => byte_mask(frame.slot_mask),
        None => 0xf0u8,
    };
    s.fm_keys@[key_slot(base, channel)] & !mask
}

impl RegisterState {
    /// Keys off an FM part; other events and parts change nothing.
    pub fn emit_key_off(&mut self, event: &PartEvent, writes: &mut Vec<RegisterWrite>)
        ensures
            ({
                match *event {
                    PartEvent::KeyOff { part, kind: ChannelKind::Fm } => match fm_address_spec(part as int) {
                        Some((base, channel)) => {
                            let key = key_off_after(*old(self), part as int, base, channel);
                            &&& final(self).fm_keys@ == old(self).fm_keys@.update(key_slot(base, channel), key)
                            &&& *final(self) == (RegisterState { fm_keys: final(self).fm_keys, ..*old(self) })
                            &&& final(writes)@ == old(writes)@.push(rw(0x28, key_value(key, base, channel)))
                        },
                        None => *final(self) == *old(self) && final(writes)@ == old(writes)@,
                    },
                    _ => *final(self) == *old(self) && final(writes)@ == old(writes)@,
                }
            }),
    {
        let part = match event {
            PartEvent::KeyOff { part, kind: ChannelKind::Fm } => *part,
            _ => return,
        };
        let (base, channel) = match fm_address(part) {
            Some(address) => address,
            None => return,
        };
        let mask: u8 = match self.fm_frames[part] {
            Some(frame) => (if frame.slot_mask < 0 { 0 } else if frame.slot_mask > 0xff { 0xff } else { frame.slot_mask }) as u8,
            None => 0xf0,
        };
        let bank = if base != 0 { 3usize } else { 0usize };
        let key = self.fm_keys[bank + channel] & !mask;
        self.fm_keys[bank + channel] = key;
        write(writes, 0x28, key | channel as u8 | if base != 0 { 4u8 } else { 0u8 });
    }

    /// Writes the registers of a frame event: an SSG frame on the SSG parts
    /// (6 to 8), an FM frame on FM parts; other events change nothing.
    pub fn emit_frame(
        &mut self,
        event: &PartEvent,
        note: Option<u8>,
        state: VoiceFrame,
        psg_noise: i32,
        ch3_mode: u8,
        writes: &mut Vec<RegisterWrite>,
    )
        ensures
            ({
                match *event {
                    PartEvent::Frame { part, kind: ChannelKind::Ssg, .. } => if 6 <= part < 9 {
                        let index = part - 6;
                        let (mixer, noise, emitted) = ssg_frame_result(*old(self), index, note, state, psg_noise);
                        &&& final(self).ssg_frames@ == old(self).ssg_frames@.update(index, Some((state.pitch, ssg_volume(state))))
                        &&& *final(self) == (RegisterState { ssg_frames: final(self).ssg_frames, ssg_mixer: mixer, psg_noise: noise, ..*old(self) })
                        &&& final(writes)@ == old(writes)@ + emitted
                    } else {
                        *final(self) == *old(self) && final(writes)@ == old(writes)@
                    },
                    PartEvent::Frame { part, kind: ChannelKind::Fm, .. } => match fm_address_spec(part as int) {
                        Some((base, channel)) => {
                            &&& final(self).fm_frames@ == old(self).fm_frames@.update(part as int, Some(state))
                            &&& final(self).fm_keys@ == (if fm_keys_on(note, state) {
                                old(self).fm_keys@.update(key_slot(base, channel), fm_key_after(*old(self), state, base, channel))
                            } else {
                                old(self).fm_keys@
                            })
                            &&& *final(self) == (RegisterState { fm_frames: final(self).fm_frames, fm_keys: final(self).fm_keys, ..*old(self) })
                            &&& final(writes)@ == old(writes)@ + fm_frame_writes(*old(self), part as int, note, state, ch3_mode)
                        },
                        None => *final(self) == *old(self) && final(writes)@ == old(writes)@,
                    },
                    _ => *final(self) == *old(self) && final(writes)@ == old(writes)@,
                }
            }),
    {
        match event {
            PartEvent::Frame { part, kind: ChannelKind::Ssg, .. } => {
                if 6 <= *part && *part < 9 {
                    self.emit_ssg_frame(*part - 6, note, state, psg_noise, writes);
                }
            },
            PartEvent::Frame { part, kind: ChannelKind::Fm, .. } => {
                self.emit_fm_frame(*part, note, state, ch3_mode, writes);
            },
            _ => {},
        }
    }
}

} // verus!
