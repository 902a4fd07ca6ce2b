use vstd::prelude::*;
use super::channel::{
    ChannelKind, ChannelState, CommandState, EffectRequest, RegisterWrite, SequencerGlobals, lfo_reset,
    lfo_swapped, volume_limit_spec,
};
use super::timing::{Tempo, quarter_of, tempo_from_quarter, tempo_from_timer_b};
use crate::opna::adpcm::clamp_spec;
use crate::opna::fm::mask_has;

verus! {

broadcast use crate::bits::group_bit_bounds;

/// A read position in a part's command stream, which commands may patch.
pub struct PartCursor<'a> {
    pub data: &'a mut [u8],
    pub position: usize,
}

/// Why a command could not run.
#[derive(Clone, Copy, Debug, PartialEq, Eq, Structural)]
pub enum CommandError {
    Truncated { position: usize, needed: usize },
    InvalidJump { target: usize },
    InvalidOperand { opcode: u8, value: u8 },
    UnknownOpcode { opcode: u8 },
}

/// What running one command did to the stream.
#[derive(Clone, Copy, Debug, PartialEq, Eq, Structural)]
pub enum CommandOutcome {
    EndOfPart { position: usize },
    Executed { opcode: u8, start: usize, end: usize },
    UnknownTerminated { opcode: u8, position: usize },
}

/// A byte read as a signed value.
pub open spec fn signed8(b: u8) -> int {
    if b < 128 { b as int } else { b - 256 }
}

/// Two bytes read as a signed little-endian value.
pub open spec fn signed16(low: u8, high: u8) -> int {
    let v = low + high * 256;
    if v < 32768 { v } else { v - 65536 }
}

/// Two bytes read as an unsigned little-endian value.
pub open spec fn unsigned16(low: u8, high: u8) -> int {
    low + high * 256
}

impl<'a> PartCursor<'a> {
    /// The stream's bytes.
    pub open spec fn bytes(&self) -> Seq<u8> {
        self.data@
    }

    /// Whether `count` more bytes can be read.
    pub open spec fn has(&self, count: int) -> bool {
        self.position + count <= self.data@.len()
    }

    /// The byte `offset` places past the read position.
    pub open spec fn at(&self, offset: int) -> u8 {
        self.data@[self.position + offset]
    }

    /// The error a read of one byte too many reports.
    pub open spec fn truncation(&self) -> CommandError {
        CommandError::Truncated {
            position: (if self.position <= self.data@.len() { self.data@.len() as int } else { self.position as int }) as usize,
            needed: 1,
        }
    }

    pub fn new(data: &'a mut [u8]) -> (cursor: Self)
        ensures
            cursor.position == 0,
            cursor.data@ == old(data)@,
            final(cursor.data)@ == final(data)@,
    {
        PartCursor { data, position: 0 }
    }

    pub fn position(&self) -> (position: usize)
        ensures
            position == self.position,
    {
        self.position
    }

    pub fn len(&self) -> (len: usize)
        ensures
            len == self.bytes().len(),
    {
        self.data.len()
    }

    pub fn peek(&self) -> (byte: Option<u8>)
        ensures
            byte == (if self.position < self.bytes().len() { Some(self.bytes()[self.position as int]) } else { None::<u8> }),
    {
        if self.position < self.data.len() {
            Some(self.data[self.position])
        } else {
            None
        }
    }

    pub fn byte_at(&self, position: usize) -> (byte: Option<u8>)
        ensures
            byte == (if position < self.bytes().len() { Some(self.bytes()[position as int]) } else { None::<u8> }),
    {
        if position < self.data.len() {
            Some(self.data[position])
        } else {
            None
        }
    }

    pub fn read_u8(&mut self) -> (value: Result<u8, CommandError>)
        ensures
            final(self).data@ == old(self).data@,
            old(self).has(1) ==> value == Ok::<u8, CommandError>(old(self).at(0)) && final(self).position == old(self).position + 1,
            !old(self).has(1) ==> value == Err::<u8, CommandError>(CommandError::Truncated { position: old(self).position, needed: 1 })
                && final(self).position == old(self).position,
    {
        let position = self.position;
        if position < self.data.len() {
            let value = self.data[position];
            self.position = position + 1;
            Ok(value)
        } else {
            Err(CommandError::Truncated { position, needed: 1 })
        }
    }

    pub fn read_i8(&mut self) -> (value: Result<i8, CommandError>)
        ensures
            final(self).data@ == old(self).data@,
            old(self).has(1) ==> (value matches Ok(v) && v == signed8(old(self).at(0)) && final(self).position == old(self).position + 1),
            !old(self).has(1) ==> value == Err::<i8, CommandError>(CommandError::Truncated { position: old(self).position, needed: 1 })
                && final(self).position == old(self).position,
    {
        let byte = self.read_u8()?;
        Ok(if byte < 128 { byte as i8 } else { (byte as i16 - 256) as i8 })
    }

    pub fn read_u16_le(&mut self) -> (value: Result<u16, CommandError>)
        ensures
            final(self).data@ == old(self).data@,
            old(self).has(2) ==> (value matches Ok(v) && v == unsigned16(old(self).at(0), old(self).at(1))
                && final(self).position == old(self).position + 2),
            !old(self).has(2) ==> value is Err,
            value matches Err(e) ==> e is Truncated,
    {
        let low = self.read_u8()?;
        let high = self.read_u8()?;
        Ok(low as u16 + (high as u16) * 256)
    }

    pub fn read_i16_le(&mut self) -> (value: Result<i16, CommandError>)
        ensures
            final(self).data@ == old(self).data@,
            old(self).has(2) ==> (value matches Ok(v) && v == signed16(old(self).at(0), old(self).at(1))
                && final(self).position == old(self).position + 2),
            !old(self).has(2) ==> value is Err,
            value matches Err(e) ==> e is Truncated,
    {
        let raw = self.read_u16_le()?;
        Ok(if raw < 32768 { raw as i16 } else { (raw as i32 - 65536) as i16 })
    }

    /// Moves past `count` bytes, if the stream has them.
    pub fn skip(&mut self, count: usize) -> (result: Result<(), CommandError>)
        ensures
        !(result matches Err(CommandError::UnknownOpcode { .. })),
            final(self).data@ == old(self).data@,
            old(self).has(count as int) ==> result is Ok && final(self).position == old(self).position + count,
            !old(self).has(count as int) ==> result == Err::<(), CommandError>(
                CommandError::Truncated { position: old(self).position, needed: count },
            ) && final(self).position == old(self).position,
    {
        if self.position > self.data.len() || count > self.data.len() - self.position {
            return Err(CommandError::Truncated { position: self.position, needed: count });
        }
        self.position = self.position + count;
        Ok(())
    }

    /// Jumps to a position inside (or at the end of) the stream.
    pub fn set_position(&mut self, position: usize) -> (result: Result<(), CommandError>)
        ensures
        !(result matches Err(CommandError::UnknownOpcode { .. })),
            final(self).data@ == old(self).data@,
            position <= old(self).data@.len() ==> result is Ok && final(self).position == position,
            position > old(self).data@.len() ==> result == Err::<(), CommandError>(CommandError::InvalidJump { target: position })
                && final(self).position == old(self).position,
    {
        if position > self.data.len() {
            return Err(CommandError::InvalidJump { target: position });
        }
        self.position = position;
        Ok(())
    }

    /// Patches one byte of the stream.
    pub fn write_at(&mut self, position: usize, value: u8) -> (result: Result<(), CommandError>)
        ensures
        !(result matches Err(CommandError::UnknownOpcode { .. })),
            final(self).position == old(self).position,
            position < old(self).data@.len() ==> result is Ok && final(self).data@ == old(self).data@.update(position as int, value),
            position >= old(self).data@.len() ==> result == Err::<(), CommandError>(CommandError::InvalidJump { target: position })
                && final(self).data@ == old(self).data@,
    {
        if position >= self.data.len() {
            return Err(CommandError::InvalidJump { target: position });
        }
        self.data[position] = value;
        Ok(())
    }
}


/// The rest of a command state (everything but the part's work area) is
/// unchanged.
pub open spec fn only_channel_changed(a: CommandState, b: CommandState) -> bool {
    &&& b.globals == a.globals
    &&& b.writes@ == a.writes@
    &&& b.effect_requests@ == a.effect_requests@
    &&& b.fm_channel == a.fm_channel
}

/// The work area after `@ delay speed step time`: the main LFO's
/// parameters are set (and saved) and it restarts.
pub open spec fn lfo_set(c: ChannelState, delay: u8, speed: u8, step: u8, time: u8) -> ChannelState {
    lfo_reset(ChannelState {
        delay: delay as i32,
        secondary_delay: delay as i32,
        speed: speed as i32,
        secondary_speed: speed as i32,
        step: signed8(step) as i32,
        secondary_step: signed8(step) as i32,
        time: time as i32,
        secondary_time: time as i32,
        ..c
    })
}

pub fn set_lfo(cursor: &mut PartCursor, channel: &mut ChannelState) -> (result: Result<(), CommandError>)
    requires
        old(channel).wf(),
    ensures
        final(channel).kind == old(channel).kind,
        !(result matches Err(CommandError::UnknownOpcode { .. })),
        final(channel).wf(),
        final(cursor).bytes() == old(cursor).bytes(),
        result is Ok <==> old(cursor).has(4),
        result is Ok ==> final(cursor).position == old(cursor).position + 4
            && *final(channel) == lfo_set(*old(channel), old(cursor).at(0), old(cursor).at(1), old(cursor).at(2), old(cursor).at(3)),
{
    channel.delay = cursor.read_u8()? as i32;
    channel.secondary_delay = channel.delay;
    channel.speed = cursor.read_u8()? as i32;
    channel.secondary_speed = channel.speed;
    channel.step = cursor.read_i8()? as i32;
    channel.secondary_step = channel.step;
    channel.time = cursor.read_u8()? as i32;
    channel.secondary_time = channel.time;
    channel.reset_lfo_main();
    Ok(())
}

/// The switch value `* n` stores: values with bits above the low three act as 1.
pub open spec fn lfo_switch_value(v: u8) -> i32 {
    if v & 0xf8 != 0 { 1 } else { (v & 7) as i32 }
}

pub fn set_lfo_switch(cursor: &mut PartCursor, channel: &mut ChannelState) -> (result: Result<(), CommandError>)
    requires
        old(channel).wf(),
    ensures
        final(channel).kind == old(channel).kind,
        !(result matches Err(CommandError::UnknownOpcode { .. })),
        final(channel).wf(),
        final(cursor).bytes() == old(cursor).bytes(),
        result is Ok <==> old(cursor).has(1),
        result is Ok ==> final(cursor).position == old(cursor).position + 1
            && *final(channel) == lfo_reset(ChannelState {
                lfoswi: (old(channel).lfoswi & !7i32) | lfo_switch_value(old(cursor).at(0)),
                ..*old(channel)
            }),
{
    let value = cursor.read_u8()?;
    let switch = if value & 0xf8 != 0 { 1 } else { (value & 7) as i32 };
    proof { lemma_low3_merge(channel.lfoswi, switch); }
    channel.lfoswi = (channel.lfoswi & !7) | switch;
    channel.reset_lfo_main();
    Ok(())
}

proof fn lemma_low3_merge(x: i32, v: i32)
    by (bit_vector)
    requires
        0 <= x <= 0xff,
        0 <= v <= 7,
    ensures
        0 <= ((x & !7i32) | v) <= 0xff,
{
}

/// The part after `E al dd sr rr` (the software envelope; it leaves the
/// extended envelope mode).
pub open spec fn psg_envelope_set(ch: ChannelState, ar: u8, dr: u8, sr: u8, rr: u8) -> ChannelState {
    let c = ChannelState {
        env_ar: ar as i32,
        env_arc: ar as i32,
        env_dr: signed8(dr) as i32,
        env_sr: sr as i32,
        env_src: sr as i32,
        env_rr: rr as i32,
        env_rrc: rr as i32,
        ..ch
    };
    if c.env_flag == -1i32 { ChannelState { env_flag: 2, env_volume: -15i32, ..c } } else { c }
}

pub fn set_psg_envelope(cursor: &mut PartCursor, channel: &mut ChannelState) -> (result: Result<(), CommandError>)
    requires
        old(channel).wf(),
    ensures
        final(channel).kind == old(channel).kind,
        !(result matches Err(CommandError::UnknownOpcode { .. })),
        final(channel).wf(),
        final(cursor).bytes() == old(cursor).bytes(),
        result is Ok <==> old(cursor).has(4),
        result is Ok ==> final(cursor).position == old(cursor).position + 4
            && *final(channel) == psg_envelope_set(*old(channel), old(cursor).at(0), old(cursor).at(1), old(cursor).at(2), old(cursor).at(3)),
{
    channel.env_ar = cursor.read_u8()? as i32;
    channel.env_arc = channel.env_ar;
    channel.env_dr = cursor.read_i8()? as i32;
    channel.env_sr = cursor.read_u8()? as i32;
    channel.env_src = channel.env_sr;
    channel.env_rr = cursor.read_u8()? as i32;
    channel.env_rrc = channel.env_rr;
    if channel.env_flag == -1 {
        channel.env_flag = 2;
        channel.env_volume = -15;
    }
    Ok(())
}

/// The part after the extended (hardware-like) envelope command `E ar dr sr
/// rr/sl al`.
pub open spec fn extended_envelope_set(ch: ChannelState, ar: u8, dr: u8, sr: u8, rs: u8, al: u8) -> ChannelState {
    let c = ChannelState {
        env_ar: (ar & 0x1f) as i32,
        env_dr: (dr & 0x1f) as i32,
        env_sr: (sr & 0x1f) as i32,
        env_rr: (rs & 0x0f) as i32,
        env_sl: (15 - rs / 16) as i32,
        env_al: (al & 0x0f) as i32,
        ..ch
    };
    if c.env_flag != -1i32 { ChannelState { env_flag: -1i32, env_count: 4, env_volume: 0, ..c } } else { c }
}

pub fn set_extended_psg_envelope(cursor: &mut PartCursor, channel: &mut ChannelState) -> (result: Result<(), CommandError>)
    requires
        old(channel).wf(),
    ensures
        final(channel).kind == old(channel).kind,
        !(result matches Err(CommandError::UnknownOpcode { .. })),
        final(channel).wf(),
        final(cursor).bytes() == old(cursor).bytes(),
        result is Ok <==> old(cursor).has(5),
        result is Ok ==> final(cursor).position == old(cursor).position + 5 && *final(channel) == extended_envelope_set(
            *old(channel), old(cursor).at(0), old(cursor).at(1), old(cursor).at(2), old(cursor).at(3), old(cursor).at(4),
        ),
{
    channel.env_ar = (cursor.read_u8()? & 0x1f) as i32;
    channel.env_dr = (cursor.read_u8()? & 0x1f) as i32;
    channel.env_sr = (cursor.read_u8()? & 0x1f) as i32;
    let release_and_sustain = cursor.read_u8()?;
    channel.env_rr = (release_and_sustain & 0x0f) as i32;
    assert((release_and_sustain >> 4) ^ 0x0f == 15 - release_and_sustain / 16) by (bit_vector);
    channel.env_sl = ((release_and_sustain >> 4) ^ 0x0f) as i32;
    channel.env_al = (cursor.read_u8()? & 0x0f) as i32;
    if channel.env_flag != -1 {
        channel.env_flag = -1;
        channel.env_count = 4;
        channel.env_volume = 0;
    }
    Ok(())
}

/// The extend-mode byte with one bit set from an operand's low bit.
pub open spec fn extend_bit_set(mode: i32, bit: u32, value: u8) -> i32 {
    ((mode & !(1i32 << bit)) | (((value & 1) as i32) << bit)) as i32
}

pub fn set_extend_bit(cursor: &mut PartCursor, channel: &mut ChannelState, bit: u32) -> (result: Result<(), CommandError>)
    requires
        old(channel).wf(),
        bit == 1 || bit == 2,
    ensures
        final(channel).kind == old(channel).kind,
        !(result matches Err(CommandError::UnknownOpcode { .. })),
        final(channel).wf(),
        final(cursor).bytes() == old(cursor).bytes(),
        result is Ok <==> old(cursor).has(1),
        result is Ok ==> final(cursor).position == old(cursor).position + 1
            && *final(channel) == (ChannelState { extendmode: extend_bit_set(old(channel).extendmode, bit, old(cursor).at(0)), ..*old(channel) }),
{
    let value = cursor.read_u8()?;
    let mask = 1i32 << bit;
    proof { lemma_extend_bit(channel.extendmode, bit, value); }
    channel.extendmode = (channel.extendmode & !mask) | (((value & 1) as i32) << bit);
    Ok(())
}

proof fn lemma_extend_bit(mode: i32, bit: u32, value: u8)
    by (bit_vector)
    requires
        0 <= mode <= 0xff,
        bit == 1 || bit == 2,
    ensures
        0 <= ((mode & !(1i32 << bit)) | (((value & 1) as i32) << bit)) <= 0xff,
{
}

/// The mask `volume_mask` stores: the carrier mask for 0, else the slots
/// of the operand's low nibble with the low four bits set.
pub open spec fn volume_mask_value(carrier: i32, value: u8) -> i32 {
    let v = value & 0x0f;
    if v == 0 { carrier } else { (v * 16 + 15) as i32 }
}

pub fn volume_mask(cursor: &mut PartCursor, channel: &mut ChannelState, secondary: bool) -> (result: Result<(), CommandError>)
    requires
        old(channel).wf(),
    ensures
        final(channel).kind == old(channel).kind,
        !(result matches Err(CommandError::UnknownOpcode { .. })),
        final(channel).wf(),
        final(cursor).bytes() == old(cursor).bytes(),
        result is Ok <==> old(cursor).has(1),
        result is Ok ==> final(cursor).position == old(cursor).position + 1 && *final(channel) == (if secondary {
            ChannelState { secondary_volume_mask: volume_mask_value(old(channel).carrier, old(cursor).at(0)), ..*old(channel) }
        } else {
            ChannelState { volume_mask: volume_mask_value(old(channel).carrier, old(cursor).at(0)), ..*old(channel) }
        }),
{
    let value = cursor.read_u8()? & 0x0f;
    let mask = if value == 0 { channel.carrier } else { (value as i32) * 16 + 15 };
    if secondary {
        channel.secondary_volume_mask = mask;
    } else {
        channel.volume_mask = mask;
    }
    Ok(())
}

/// The LFO depth-change count an operand sets: bit 7 picks the second
/// LFO, a zero count means 255.
pub open spec fn mdepth_count_value(v: u8) -> i32 {
    let n = if v & 0x80 != 0 { v & 0x7f } else { v };
    if n == 0 { 255 } else { n as i32 }
}

/// The part after `MDC`: bit 7 of the operand picks the secondary LFO.
pub open spec fn mdepth_counted(c: ChannelState, v: u8) -> ChannelState {
    let n = mdepth_count_value(v);
    if v & 0x80 != 0 {
        ChannelState { secondary_mdc: n, secondary_mdc2: n, ..c }
    } else {
        ChannelState { mdc: n, mdc2: n, ..c }
    }
}

pub fn mdepth_count(cursor: &mut PartCursor, channel: &mut ChannelState) -> (result: Result<(), CommandError>)
    requires
        old(channel).wf(),
    ensures
        final(channel).kind == old(channel).kind,
        !(result matches Err(CommandError::UnknownOpcode { .. })),
        final(channel).wf(),
        final(cursor).bytes() == old(cursor).bytes(),
        result is Ok <==> old(cursor).has(1),
        result is Ok ==> final(cursor).position == old(cursor).position + 1
            && *final(channel) == mdepth_counted(*old(channel), old(cursor).at(0)),
{
    let value = cursor.read_u8()?;
    if value & 0x80 != 0 {
        let count = if value & 0x7f == 0 { 255 } else { (value & 0x7f) as i32 };
        channel.secondary_mdc = count;
        channel.secondary_mdc2 = count;
    } else {
        let count = if value == 0 { 255 } else { value as i32 };
        channel.mdc = count;
        channel.mdc2 = count;
    }
    Ok(())
}

pub fn program_change(cursor: &mut PartCursor, state: &mut CommandState) -> (result: Result<(), CommandError>)
    requires
        old(state).wf(),
    ensures
        final(state).channel.kind == old(state).channel.kind,
        !(result matches Err(CommandError::UnknownOpcode { .. })),
        final(state).wf(),
        final(cursor).bytes() == old(cursor).bytes(),
        result is Ok <==> old(cursor).has(1),
        result is Ok ==> final(cursor).position == old(cursor).position + 1
            && *final(state) == (CommandState {
                channel: ChannelState { voice_number: old(cursor).at(0) as i32, ..old(state).channel },
                ..*old(state)
            }),
{
    state.channel.voice_number = cursor.read_u8()? as i32;
    Ok(())
}

/// The tempo after a `t` command: a selector up to 250 is a timer B
/// value; 0xff sets the quarter rate, 0xfe moves timer B and the others
/// move the quarter rate by a signed operand.
pub open spec fn tempo_changed(selector: u8, operand: u8, tempo: Tempo) -> Tempo {
    if selector <= 250 {
        tempo_from_timer_b(selector)
    } else if selector == 0xff {
        tempo_from_quarter(if operand < 18 { 18 } else { operand })
    } else if selector == 0xfe {
        tempo_from_timer_b(clamp_spec(tempo.timer_b_saved + signed8(operand), 0, 250) as u8)
    } else {
        tempo_from_quarter(clamp_spec(tempo.quarter_saved + signed8(operand), 18, 255) as u8)
    }
}

/// A `t` selector from 0 to 250 is the timer B value itself: both the
/// timer and its saved copy take it, the quarter-note rate (and its saved
/// copy) become the rate that timer value plays at, and neither the
/// operand nor the earlier tempo has a say.
pub proof fn law_tempo_selector_is_timer_b(selector: u8, operand: u8, tempo: Tempo)
    requires
        selector <= 250,
    ensures
        tempo_changed(selector, operand, tempo).timer_b == selector,
        tempo_changed(selector, operand, tempo).timer_b_saved == selector,
        tempo_changed(selector, operand, tempo).quarter == quarter_of(selector),
        tempo_changed(selector, operand, tempo).quarter_saved == quarter_of(selector),
{
}

/// The other `t` selectors: 0xff sets the quarter-note rate to its
/// operand (at least 18); 0xfe moves the saved timer B value by the signed
/// operand, kept within 0 to 250; 251 to 253 move the saved quarter-note
/// rate by it, kept within 18 to 255.
pub proof fn law_tempo_rate_selectors(selector: u8, operand: u8, tempo: Tempo)
    requires
        selector > 250,
    ensures
        ({
            let changed = tempo_changed(selector, operand, tempo);
            let delta: int = if operand < 128 { operand as int } else { operand - 256 };
            let timer = tempo.timer_b_saved + delta;
            let rate = tempo.quarter_saved + delta;
            &&& selector == 0xff ==> changed.quarter == (if operand < 18 { 18 } else { operand })
                && changed.quarter_saved == changed.quarter
            &&& selector == 0xfe ==> changed.timer_b == (if timer < 0 { 0 } else if timer > 250 { 250 } else { timer })
                && changed.timer_b_saved == changed.timer_b
            &&& selector < 0xfe ==> changed.quarter == (if rate < 18 { 18 } else if rate > 255 { 255 } else { rate })
                && changed.quarter_saved == changed.quarter
        }),
{
}

pub fn tempo_change(cursor: &mut PartCursor, tempo: &mut Tempo) -> (result: Result<(), CommandError>)
    ensures
        !(result matches Err(CommandError::UnknownOpcode { .. })),
        final(cursor).bytes() == old(cursor).bytes(),
        result is Ok <==> (old(cursor).has(1) && (old(cursor).at(0) <= 250 || old(cursor).has(2))),
        result is Ok ==> final(cursor).position == old(cursor).position + (if old(cursor).at(0) <= 250 { 1int } else { 2int })
            && *final(tempo) == tempo_changed(old(cursor).at(0), old(cursor).at(1), *old(tempo)),
        result is Ok && old(cursor).at(0) <= 250 ==> final(tempo).timer_b == old(cursor).at(0)
            && final(tempo).timer_b_saved == old(cursor).at(0)
            && final(tempo).quarter == quarter_of(old(cursor).at(0)),
{
    let selector = cursor.read_u8()?;
    if selector <= 250 {
        tempo.set_timer_b(selector);
    } else if selector == 0xff {
        let value = cursor.read_u8()?;
        tempo.set_quarter(if value < 18 { 18 } else { value });
    } else if selector == 0xfe {
        let delta = cursor.read_i8()?;
        tempo.adjust_timer_b(delta);
    } else {
        let delta = cursor.read_i8()?;
        tempo.adjust_quarter(delta);
    }
    Ok(())
}

/// Marks the loop whose counter pair a `[` points at as fresh (its
/// current count byte cleared).
pub fn start_loop(cursor: &mut PartCursor) -> (result: Result<(), CommandError>)
    ensures
        !(result matches Err(CommandError::UnknownOpcode { .. })),
        old(cursor).has(2) && unsigned16(old(cursor).at(0), old(cursor).at(1)) + 1 < old(cursor).bytes().len()
            <==> result is Ok,
        result is Ok ==> final(cursor).position == old(cursor).position + 2
            && final(cursor).bytes() == old(cursor).bytes().update(unsigned16(old(cursor).at(0), old(cursor).at(1)) + 1, 0),
        old(cursor).has(2) && result is Err ==> result == Err::<(), CommandError>(CommandError::InvalidJump {
            target: (unsigned16(old(cursor).at(0), old(cursor).at(1)) + 1) as usize,
        }) && final(cursor).bytes() == old(cursor).bytes(),
{
    let target = cursor.read_u16_le()? as usize;
    cursor.write_at(target + 1, 0)?;
    Ok(())
}

/// The jump target stored at a position: the 16-bit pointer plus two.
pub open spec fn loop_target(data: Seq<u8>, at: int) -> int {
    unsigned16(data[at], data[at + 1]) + 2
}

/// `]` (loop end): with a nonzero count the loop's current count byte is
/// incremented and compared; when it reaches the count the loop is done
/// and the pointer skipped, otherwise (and for an infinite loop, which
/// also marks the part as looping) the cursor jumps back.
/// Where `]` leaves the part, the stream and the cursor when it succeeds.
pub open spec fn loop_end_result(c: ChannelState, d: Seq<u8>, p: int) -> (ChannelState, Seq<u8>, int) {
    let count = d[p];
    let next = vstd::wrapping::u8_specs::wrapping_add(d[p + 1], 1);
    let bumped = d.update(p + 1, next);
    if count != 0 && next == count {
        (c, bumped, p + 4)
    } else {
        let data = if count != 0 { bumped } else { d };
        (if count == 0 { ChannelState { loop_check: 1, ..c } } else { c }, data, loop_target(data, p + 2))
    }
}

/// A loop of count n (1 to 255) is left at its n-th `]`: each pass adds
/// one to the loop's counter byte, the pass that brings it to n moves on
/// past the loop's four operand bytes, and every pass before jumps back to
/// the stored start (the pointer plus two). A loop of count 0 repeats for
/// good: it always jumps back, leaves the stream as it was and marks the
/// part as looping.
pub proof fn law_loop_runs_count_times(c: ChannelState, d: Seq<u8>, p: int)
    requires
        0 <= p,
        p + 4 <= d.len(),
    ensures
        ({
            let (after, data, next) = loop_end_result(c, d, p);
            let start = d[p + 2] + 256 * d[p + 3] + 2;
            &&& d[p] != 0 && d[p + 1] < d[p] ==> data == d.update(p + 1, (d[p + 1] + 1) as u8) && after == c
            &&& d[p] != 0 && d[p + 1] + 1 == d[p] ==> next == p + 4
            &&& d[p] != 0 && d[p + 1] + 1 < d[p] ==> next == start
            &&& d[p] == 0 ==> next == start && data == d && after.loop_check == 1
        }),
{
}

pub fn end_loop(cursor: &mut PartCursor, channel: &mut ChannelState) -> (result: Result<(), CommandError>)
    requires
        old(channel).wf(),
    ensures
        final(channel).kind == old(channel).kind,
        !(result matches Err(CommandError::UnknownOpcode { .. })),
        final(channel).wf(),
        ({
            let p = old(cursor).position as int;
            let d = old(cursor).bytes();
            let count = d[p];
            let bumped = d.update(p + 1, vstd::wrapping::u8_specs::wrapping_add(d[p + 1], 1));
            if !old(cursor).has(4) {
                result is Err
            } else if count != 0 && vstd::wrapping::u8_specs::wrapping_add(d[p + 1], 1) == count {
                &&& result is Ok
                &&& final(cursor).bytes() == bumped
                &&& final(cursor).position == p + 4
                &&& *final(channel) == *old(channel)
            } else {
                let data = if count != 0 { bumped } else { d };
                &&& final(cursor).bytes() == data
                &&& *final(channel) == (if count == 0 { ChannelState { loop_check: 1, ..*old(channel) } } else { *old(channel) })
                &&& (loop_target(data, p + 2) <= data.len() <==> result is Ok)
                &&& result is Ok ==> final(cursor).position == loop_target(data, p + 2)
            }
        }),
        result is Ok ==> old(cursor).has(4) && (*final(channel), final(cursor).bytes(), final(cursor).position as int)
            == loop_end_result(*old(channel), old(cursor).bytes(), old(cursor).position as int),
{
    let count_position = cursor.position();
    let count = cursor.read_u8()?;
    if count != 0 {
        let current_position = cursor.position();
        let current = match cursor.byte_at(current_position) {
            Some(b) => b,
            None => {
                return Err(CommandError::Truncated { position: current_position, needed: 1 });
            },
        };
        cursor.write_at(current_position, current.wrapping_add(1))?;
        let compare = cursor.read_u8()?;
        if count == compare {
            cursor.skip(2)?;
            return Ok(());
        }
    } else {
        channel.loop_check = 1;
        cursor.skip(1)?;
    }
    let target = cursor.read_u16_le()? as usize + 2;
    cursor.set_position(target)
}

/// `:` (loop exit): leaves the loop whose counter pair is named when this
/// is its last pass.
/// Where `:` leaves the cursor when it succeeds: past the loop on its last
/// pass, else past its operand.
pub open spec fn loop_exit_position(d: Seq<u8>, p: int) -> int {
    let pair = unsigned16(d[p], d[p + 1]);
    if d[pair] - 1 == d[pair + 1] { pair + 4 } else { p + 2 }
}

pub fn loop_exit(cursor: &mut PartCursor, channel: &mut ChannelState) -> (result: Result<(), CommandError>)
    ensures
        final(channel).kind == old(channel).kind,
        !(result matches Err(CommandError::UnknownOpcode { .. })),
        *final(channel) == *old(channel),
        final(cursor).bytes() == old(cursor).bytes(),
        ({
            let d = old(cursor).bytes();
            let pair = unsigned16(old(cursor).at(0), old(cursor).at(1));
            if !old(cursor).has(2) {
                result is Err
            } else if pair + 1 >= d.len() {
                result == Err::<(), CommandError>(CommandError::InvalidJump { target: pair as usize })
            } else if d[pair] - 1 == d[pair + 1] {
                &&& (pair + 4 <= d.len() <==> result is Ok)
                &&& result is Ok ==> final(cursor).position == pair + 4
            } else {
                result is Ok && final(cursor).position == old(cursor).position + 2
            }
        }),
        result is Ok ==> old(cursor).has(2) && final(cursor).position == loop_exit_position(old(cursor).bytes(), old(cursor).position as int),
{
    let pair = cursor.read_u16_le()? as usize;
    let count = match cursor.byte_at(pair) {
        Some(b) => b,
        None => {
            return Err(CommandError::InvalidJump { target: pair });
        },
    };
    let current = match cursor.byte_at(pair + 1) {
        Some(b) => b,
        None => {
            return Err(CommandError::InvalidJump { target: pair });
        },
    };
    if count as i32 - 1 == current as i32 {
        cursor.set_position(pair + 4)?;
    }
    Ok(())
}


/// The sound source a command stream is interpreted for.
#[derive(Clone, Copy, Debug, PartialEq, Eq, Structural)]
pub enum CommandProfile {
    Fm,
    Ssg,
    Rhythm,
    Adpcm,
    P86,
    Ppz8,
}

/// The channel kind a profile serves.
pub open spec fn profile_kind(profile: CommandProfile) -> ChannelKind {
    match profile {
        CommandProfile::Fm => ChannelKind::Fm,
        CommandProfile::Ssg => ChannelKind::Ssg,
        CommandProfile::Rhythm => ChannelKind::Rhythm,
        CommandProfile::Adpcm => ChannelKind::Adpcm,
        CommandProfile::P86 => ChannelKind::P86,
        CommandProfile::Ppz8 => ChannelKind::Ppz8,
    }
}

pub open spec fn is_pcm_profile(profile: CommandProfile) -> bool {
    profile == CommandProfile::Adpcm || profile == CommandProfile::P86 || profile == CommandProfile::Ppz8
}

pub open spec fn supports_lfo_profile(profile: CommandProfile) -> bool {
    !(profile == CommandProfile::Rhythm || profile == CommandProfile::P86)
}

impl CommandProfile {
    pub fn kind(self) -> (kind: ChannelKind)
        ensures
            kind == profile_kind(self),
    {
        match self {
            CommandProfile::Fm => ChannelKind::Fm,
            CommandProfile::Ssg => ChannelKind::Ssg,
            CommandProfile::Rhythm => ChannelKind::Rhythm,
            CommandProfile::Adpcm => ChannelKind::Adpcm,
            CommandProfile::P86 => ChannelKind::P86,
            CommandProfile::Ppz8 => ChannelKind::Ppz8,
        }
    }

    pub fn is_fm(self) -> (r: bool)
        ensures
            r == (self == CommandProfile::Fm),
    {
        match self {
            CommandProfile::Fm => true,
            _ => false,
        }
    }

    pub fn is_ssg(self) -> (r: bool)
        ensures
            r == (self == CommandProfile::Ssg),
    {
        match self {
            CommandProfile::Ssg => true,
            _ => false,
        }
    }

    pub fn is_rhythm(self) -> (r: bool)
        ensures
            r == (self == CommandProfile::Rhythm),
    {
        match self {
            CommandProfile::Rhythm => true,
            _ => false,
        }
    }

    pub fn is_pcm(self) -> (r: bool)
        ensures
            r == is_pcm_profile(self),
    {
        match self {
            CommandProfile::Adpcm | CommandProfile::P86 | CommandProfile::Ppz8 => true,
            _ => false,
        }
    }

    pub fn supports_lfo(self) -> (r: bool)
        ensures
            r == supports_lfo_profile(self),
    {
        match self {
            CommandProfile::Rhythm | CommandProfile::P86 => false,
            _ => true,
        }
    }

    pub fn volume_limit(self) -> (limit: i32)
        ensures
            limit == volume_limit_spec(profile_kind(self)),
    {
        if self.is_fm() {
            127
        } else if self.is_ssg() || self.is_rhythm() {
            15
        } else {
            255
        }
    }
}

/// The register bank a raw register write goes to.
pub open spec fn raw_register_base(profile: CommandProfile, fm_select: u16) -> u16 {
    match profile {
        CommandProfile::Fm | CommandProfile::Ppz8 => fm_select,
        CommandProfile::Ssg | CommandProfile::Rhythm => 0,
        _ => 0x100,
    }
}

/// `y address, value`: a raw write to the part's register bank.
pub fn raw_register(cursor: &mut PartCursor, state: &mut CommandState, profile: CommandProfile) -> (result: Result<(), CommandError>)
    requires
        old(state).wf(),
    ensures
        final(state).channel.kind == old(state).channel.kind,
        !(result matches Err(CommandError::UnknownOpcode { .. })),
        final(state).wf(),
        final(cursor).bytes() == old(cursor).bytes(),
        result is Ok <==> old(cursor).has(2),
        result is Ok ==> final(cursor).position == old(cursor).position + 2
            && final(state).writes@ == old(state).writes@.push(RegisterWrite {
                address: (raw_register_base(profile, old(state).globals.fm_select) + old(cursor).at(0)) as u16,
                value: old(cursor).at(1),
            })
            && *final(state) == (CommandState { writes: final(state).writes, ..*old(state) }),
{
    let address = cursor.read_u8()? as u16;
    let value = cursor.read_u8()?;
    let base = match profile {
        CommandProfile::Fm | CommandProfile::Ppz8 => state.globals.fm_select,
        CommandProfile::Ssg | CommandProfile::Rhythm => 0,
        CommandProfile::Adpcm | CommandProfile::P86 => 0x100,
    };
    state.write_register(base + address, value);
    Ok(())
}

/// The pan value each source keeps after `p n`.
pub open spec fn panned(c: ChannelState, profile: CommandProfile, v: u8) -> ChannelState {
    match profile {
        CommandProfile::Fm => ChannelState { fmpan: (c.fmpan & 0x3f) | (((v as i32) << 6) & 0xc0), ..c },
        CommandProfile::Adpcm => ChannelState { fmpan: (((v & 3) as i32) * 64) as i32, ..c },
        CommandProfile::Ppz8 => ChannelState { fmpan: v as i32, ..c },
        _ => c,
    }
}

/// The 86 board's pan flag and data for a `p n` value.
pub open spec fn p86_pan(v: u8) -> (i32, i32) {
    if v == 1 {
        (2, 1)
    } else if v == 2 {
        (1, 0)
    } else if v == 3 {
        (3, 0)
    } else {
        (7, 0)
    }
}

pub fn pan_set(cursor: &mut PartCursor, state: &mut CommandState, profile: CommandProfile) -> (result: Result<(), CommandError>)
    requires
        old(state).wf(),
    ensures
        final(state).channel.kind == old(state).channel.kind,
        !(result matches Err(CommandError::UnknownOpcode { .. })),
        final(state).wf(),
        final(cursor).bytes() == old(cursor).bytes(),
        result is Ok <==> old(cursor).has(1),
        result is Ok ==> final(cursor).position == old(cursor).position + 1
            && *final(state) == (CommandState {
                channel: panned(old(state).channel, profile, old(cursor).at(0)),
                globals: if profile == CommandProfile::P86 {
                    SequencerGlobals {
                        p86_pan_flag: p86_pan(old(cursor).at(0)).0,
                        p86_pan_data: p86_pan(old(cursor).at(0)).1,
                        ..old(state).globals
                    }
                } else {
                    old(state).globals
                },
                ..*old(state)
            }),
{
    let value = cursor.read_u8()?;
    match profile {
        CommandProfile::Fm => {
            state.channel.fmpan = (state.channel.fmpan & 0x3f) | (((value as i32) << 6) & 0xc0);
        },
        CommandProfile::Adpcm => {
            state.channel.fmpan = ((value & 3) as i32) * 64;
        },
        CommandProfile::P86 => {
            let (flag, data) = if value == 1 {
                (2, 1)
            } else if value == 2 {
                (1, 0)
            } else if value == 3 {
                (3, 0)
            } else {
                (7, 0)
            };
            state.globals.p86_pan_flag = flag;
            state.globals.p86_pan_data = data;
        },
        CommandProfile::Ppz8 => {
            state.channel.fmpan = value as i32;
        },
        CommandProfile::Ssg | CommandProfile::Rhythm => {},
    }
    Ok(())
}


/// The pan value each source keeps after an extended pan command.
pub open spec fn extended_panned(c: ChannelState, profile: CommandProfile, value: u8, reverse: u8) -> ChannelState {
    let v = signed8(value);
    match profile {
        CommandProfile::Fm => ChannelState { fmpan: if v > 0 { 0x80 } else if v == 0 { 0xc0 } else { 0x40 }, ..c },
        CommandProfile::Adpcm => ChannelState { fmpan: if v == 0 { 0xc0 } else if v < 0 { 0x40 } else { 0x80 }, ..c },
        CommandProfile::P86 => ChannelState { fmpan: v as i32, reverse_pan: reverse as i32, ..c },
        CommandProfile::Ppz8 => ChannelState { fmpan: (clamp_spec(v, -4, 4) + 5) as i32, ..c },
        _ => c,
    }
}

pub fn extended_pan(cursor: &mut PartCursor, state: &mut CommandState, profile: CommandProfile) -> (result: Result<(), CommandError>)
    requires
        old(state).wf(),
    ensures
        final(state).channel.kind == old(state).channel.kind,
        !(result matches Err(CommandError::UnknownOpcode { .. })),
        final(state).wf(),
        final(cursor).bytes() == old(cursor).bytes(),
        result is Ok <==> old(cursor).has(2),
        result is Ok ==> final(cursor).position == old(cursor).position + 2
            && *final(state) == (CommandState {
                channel: extended_panned(old(state).channel, profile, old(cursor).at(0), old(cursor).at(1)),
                ..*old(state)
            }),
{
    let value = cursor.read_i8()?;
    let reverse = cursor.read_u8()?;
    match profile {
        CommandProfile::Fm => {
            state.channel.fmpan = if value > 0 { 0x80 } else if value == 0 { 0xc0 } else { 0x40 };
        },
        CommandProfile::Adpcm => {
            state.channel.fmpan = if value == 0 { 0xc0 } else if value < 0 { 0x40 } else { 0x80 };
        },
        CommandProfile::P86 => {
            state.channel.fmpan = value as i32;
            state.channel.reverse_pan = reverse as i32;
        },
        CommandProfile::Ppz8 => {
            let v = value as i32;
            state.channel.fmpan = (if v < -4 { -4 } else if v > 4 { 4 } else { v }) + 5;
        },
        CommandProfile::Ssg | CommandProfile::Rhythm => {},
    }
    Ok(())
}

/// The rhythm level register writes a key-on issues: one per keyed voice,
/// in voice order.
pub open spec fn rhythm_level_writes(mask: u8, data: Seq<i32>, n: int) -> Seq<RegisterWrite>
    decreases n,
{
    if n <= 0 {
        seq![]
    } else {
        let before = rhythm_level_writes(mask, data, n - 1);
        if mask_has(mask as u32, n - 1) {
            before.push(RegisterWrite { address: (0x18 + n - 1) as u16, value: data[n - 1] as u8 })
        } else {
            before
        }
    }
}

/// The writes a rhythm key command makes for the voices left after the
/// rhythm mask: level registers first (for a key-on), then the key register.
pub open spec fn rhythm_key_writes(mask: u8, data: Seq<i32>) -> Seq<RegisterWrite> {
    if mask == 0 {
        seq![]
    } else if mask < 0x80 {
        rhythm_level_writes(mask, data, 6).push(RegisterWrite { address: 0x10, value: mask })
    } else {
        seq![RegisterWrite { address: 0x10, value: mask }]
    }
}

pub fn rhythm_key(cursor: &mut PartCursor, state: &mut CommandState) -> (result: Result<(), CommandError>)
    requires
        old(state).wf(),
    ensures
        final(state).channel.kind == old(state).channel.kind,
        !(result matches Err(CommandError::UnknownOpcode { .. })),
        final(state).wf(),
        final(cursor).bytes() == old(cursor).bytes(),
        result is Ok <==> old(cursor).has(1),
        result is Ok ==> final(cursor).position == old(cursor).position + 1
            && final(state).writes@ == old(state).writes@ + rhythm_key_writes(
                old(cursor).at(0) & (old(state).globals.rhythm_mask as u8),
                old(state).globals.rhythm_data@,
            )
            && *final(state) == (CommandState { writes: final(state).writes, ..*old(state) }),
{
    let value = cursor.read_u8()?;
    let mask = value & (state.globals.rhythm_mask as u8);
    if mask == 0 {
        assert(old(state).writes@ + seq![] =~= old(state).writes@);
        return Ok(());
    }
    if mask < 0x80 {
        let mut index: usize = 0;
        while index < 6
            invariant
                0 <= index <= 6,
                state.wf(),
                mask < 0x80,
                state.writes@ == old(state).writes@ + rhythm_level_writes(mask, state.globals.rhythm_data@, index as int),
                *state == (CommandState { writes: state.writes, ..*old(state) }),
            decreases 6 - index,
        {
            if (mask as u32) & (1u32 << index as u32) != 0 {
                let data = state.globals.rhythm_data[index] as u8;
                state.write_register(0x18 + index as u16, data);
            }
            index = index + 1;
            proof {
                assert(state.writes@ =~= old(state).writes@ + rhythm_level_writes(mask, state.globals.rhythm_data@, index as int));
            }
        }
    }
    state.write_register(0x10, mask);
    proof {
        assert(state.writes@ =~= old(state).writes@ + rhythm_key_writes(mask, old(state).globals.rhythm_data@));
    }
    Ok(())
}

/// A rhythm voice's level byte with new low five bits, or new pan bits.
pub open spec fn rhythm_volume_data(value: u8, old_data: i32) -> u8 {
    (value & 0x1f) | ((old_data as u8) & 0xc0)
}

pub open spec fn rhythm_pan_data(value: u8, old_data: i32) -> u8 {
    (((value & 3) as int) * 64 + ((old_data as u8) & 0x1f)) as u8
}

pub fn rhythm_voice_volume(cursor: &mut PartCursor, state: &mut CommandState) -> (result: Result<(), CommandError>)
    requires
        old(state).wf(),
    ensures
        final(state).channel.kind == old(state).channel.kind,
        !(result matches Err(CommandError::UnknownOpcode { .. })),
        final(state).wf(),
        final(cursor).bytes() == old(cursor).bytes(),
        result is Ok <==> old(cursor).has(1) && 1 <= old(cursor).at(0) / 32 <= 6,
        old(cursor).has(1) && !(1 <= old(cursor).at(0) / 32 <= 6) ==> result == Err::<(), CommandError>(
            CommandError::InvalidOperand { opcode: 0xea, value: old(cursor).at(0) },
        ),
        result is Ok ==> ({
            let index = old(cursor).at(0) / 32 - 1;
            let data = rhythm_volume_data(old(cursor).at(0), old(state).globals.rhythm_data@[index]);
            &&& final(cursor).position == old(cursor).position + 1
            &&& final(state).writes@ == old(state).writes@.push(RegisterWrite { address: (0x18 + index) as u16, value: data })
            &&& final(state).globals.rhythm_data@ == old(state).globals.rhythm_data@.update(index, data as i32)
            &&& *final(state) == (CommandState {
                writes: final(state).writes,
                globals: SequencerGlobals { rhythm_data: final(state).globals.rhythm_data, ..old(state).globals },
                ..*old(state)
            })
        }),
{
    let value = cursor.read_u8()?;
    let voice = (value / 32) as usize;
    if voice < 1 || voice > 6 {
        return Err(CommandError::InvalidOperand { opcode: 0xea, value });
    }
    let index = voice - 1;
    let data = (value & 0x1f) | ((state.globals.rhythm_data[index] as u8) & 0xc0);
    state.globals.rhythm_data[index] = data as i32;
    state.write_register(0x18 + index as u16, data);
    Ok(())
}

pub fn rhythm_voice_pan(cursor: &mut PartCursor, state: &mut CommandState) -> (result: Result<(), CommandError>)
    requires
        old(state).wf(),
    ensures
        final(state).channel.kind == old(state).channel.kind,
        !(result matches Err(CommandError::UnknownOpcode { .. })),
        final(state).wf(),
        final(cursor).bytes() == old(cursor).bytes(),
        result is Ok <==> old(cursor).has(1) && 1 <= old(cursor).at(0) / 32 <= 6,
        old(cursor).has(1) && !(1 <= old(cursor).at(0) / 32 <= 6) ==> result == Err::<(), CommandError>(
            CommandError::InvalidOperand { opcode: 0xe9, value: old(cursor).at(0) },
        ),
        result is Ok ==> ({
            let index = old(cursor).at(0) / 32 - 1;
            let data = rhythm_pan_data(old(cursor).at(0), old(state).globals.rhythm_data@[index]);
            &&& final(cursor).position == old(cursor).position + 1
            &&& final(state).writes@ == old(state).writes@.push(RegisterWrite { address: (0x18 + index) as u16, value: data })
            &&& final(state).globals.rhythm_data@ == old(state).globals.rhythm_data@.update(index, data as i32)
            &&& *final(state) == (CommandState {
                writes: final(state).writes,
                globals: SequencerGlobals { rhythm_data: final(state).globals.rhythm_data, ..old(state).globals },
                ..*old(state)
            })
        }),
{
    let value = cursor.read_u8()?;
    let voice = (value / 32) as usize;
    if voice < 1 || voice > 6 {
        return Err(CommandError::InvalidOperand { opcode: 0xe9, value });
    }
    let index = voice - 1;
    let data = (value & 3) * 64 + ((state.globals.rhythm_data[index] as u8) & 0x1f);
    state.globals.rhythm_data[index] = data as i32;
    state.write_register(0x18 + index as u16, data);
    Ok(())
}

/// The rhythm total level register value for a master volume, scaled by
/// the volume-down setting and kept within a byte.
pub open spec fn rhythm_output_spec(volume_down: i32, value: i32) -> u8 {
    let corrected = if volume_down != 0 { ((256 - volume_down) * value) / 256 } else { value as int };
    clamp_spec(corrected, 0, 255) as u8
}

pub fn rhythm_output_volume(state: &CommandState, value: i32) -> (out: u8)
    requires
        state.wf(),
    ensures
        out == rhythm_output_spec(state.globals.rhythm_volume_down, value),
{
    let down = state.globals.rhythm_volume_down as i64;
    let corrected: i64 = if down != 0 {
        let scale = 256 - down;
        let wide = value as i64;
        assert(-0x1_0000_0000_0000 <= scale * wide <= 0x1_0000_0000_0000) by (nonlinear_arith)
            requires 1 <= scale <= 256, -0x8000_0000 <= wide <= 0x7fff_ffff;
        let product = scale * wide;
        if product >= 0 { product / 256 } else { -((-product + 255) / 256) }
    } else {
        value as i64
    };
    (if corrected < 0 { 0 } else if corrected > 255 { 255 } else { corrected }) as u8
}

pub fn rhythm_master_volume(cursor: &mut PartCursor, state: &mut CommandState) -> (result: Result<(), CommandError>)
    requires
        old(state).wf(),
    ensures
        final(state).channel.kind == old(state).channel.kind,
        !(result matches Err(CommandError::UnknownOpcode { .. })),
        final(state).wf(),
        final(cursor).bytes() == old(cursor).bytes(),
        result is Ok <==> old(cursor).has(1),
        result is Ok ==> final(cursor).position == old(cursor).position + 1
            && final(state).writes@ == old(state).writes@.push(RegisterWrite {
                address: 0x11,
                value: rhythm_output_spec(old(state).globals.rhythm_volume_down, old(cursor).at(0) as i32),
            })
            && *final(state) == (CommandState {
                writes: final(state).writes,
                globals: SequencerGlobals { rhythm_volume: old(cursor).at(0) as i32, ..old(state).globals },
                ..*old(state)
            }),
{
    let value = cursor.read_u8()?;
    state.globals.rhythm_volume = value as i32;
    let out = rhythm_output_volume(state, state.globals.rhythm_volume);
    state.write_register(0x11, out);
    Ok(())
}


/// The master rhythm volume after a relative change: sums of 64 or more
/// become 0 when their bit 7 is set and 63 otherwise.
pub open spec fn shifted_rhythm_volume(volume: i32, delta: u8) -> i32 {
    let next = vstd::wrapping::i32_specs::wrapping_add(volume, signed8(delta) as i32);
    if next >= 64 {
        if next & 0x80 != 0 { 0 } else { 63 }
    } else {
        next
    }
}

pub fn rhythm_master_volume_shift(cursor: &mut PartCursor, state: &mut CommandState) -> (result: Result<(), CommandError>)
    requires
        old(state).wf(),
    ensures
        final(state).channel.kind == old(state).channel.kind,
        !(result matches Err(CommandError::UnknownOpcode { .. })),
        final(state).wf(),
        final(cursor).bytes() == old(cursor).bytes(),
        result is Ok <==> old(cursor).has(1),
        result is Ok ==> ({
            let volume = shifted_rhythm_volume(old(state).globals.rhythm_volume, old(cursor).at(0));
            &&& final(cursor).position == old(cursor).position + 1
            &&& final(state).writes@ == old(state).writes@.push(RegisterWrite {
                address: 0x11,
                value: rhythm_output_spec(old(state).globals.rhythm_volume_down, volume),
            })
            &&& *final(state) == (CommandState {
                writes: final(state).writes,
                globals: SequencerGlobals { rhythm_volume: volume, ..old(state).globals },
                ..*old(state)
            })
        }),
{
    let value = cursor.read_i8()?;
    let next = state.globals.rhythm_volume.wrapping_add(value as i32);
    state.globals.rhythm_volume = if next >= 64 {
        if next & 0x80 != 0 { 0 } else { 63 }
    } else {
        next
    };
    let out = rhythm_output_volume(state, state.globals.rhythm_volume);
    state.write_register(0x11, out);
    Ok(())
}

/// A rhythm voice's level byte after a relative level change (the level
/// stays within 0..=31, the pan bits are kept).
pub open spec fn shifted_voice_data(data: i32, delta: u8) -> u8 {
    let level = clamp_spec(((data as u8) & 0x1f) + signed8(delta), 0, 31);
    ((data as u8) & 0xe0) | (level as u8)
}

pub fn rhythm_voice_volume_shift(cursor: &mut PartCursor, state: &mut CommandState) -> (result: Result<(), CommandError>)
    requires
        old(state).wf(),
    ensures
        final(state).channel.kind == old(state).channel.kind,
        !(result matches Err(CommandError::UnknownOpcode { .. })),
        final(state).wf(),
        final(cursor).bytes() == old(cursor).bytes(),
        result is Ok <==> old(cursor).has(2) && 1 <= old(cursor).at(0) <= 6,
        old(cursor).has(1) && !(1 <= old(cursor).at(0) <= 6) ==> result == Err::<(), CommandError>(
            CommandError::InvalidOperand { opcode: 0xe5, value: old(cursor).at(0) },
        ),
        result is Ok ==> ({
            let index = old(cursor).at(0) - 1;
            let data = shifted_voice_data(old(state).globals.rhythm_data@[index], old(cursor).at(1));
            &&& final(cursor).position == old(cursor).position + 2
            &&& final(state).writes@ == old(state).writes@.push(RegisterWrite { address: (0x18 + index) as u16, value: data })
            &&& final(state).globals.rhythm_data@ == old(state).globals.rhythm_data@.update(index, data as i32)
            &&& *final(state) == (CommandState {
                writes: final(state).writes,
                globals: SequencerGlobals { rhythm_data: final(state).globals.rhythm_data, ..old(state).globals },
                ..*old(state)
            })
        }),
{
    let voice = cursor.read_u8()?;
    if voice < 1 || voice > 6 {
        return Err(CommandError::InvalidOperand { opcode: 0xe5, value: voice });
    }
    let shift = cursor.read_i8()? as i32;
    let index = (voice - 1) as usize;
    let current = state.globals.rhythm_data[index] as u8;
    let level = ((current & 0x1f) as i32) + shift;
    let level = if level < 0 { 0 } else if level > 31 { 31 } else { level };
    let data = (current & 0xe0) | (level as u8);
    state.globals.rhythm_data[index] = data as i32;
    state.write_register(0x18 + index as u16, data);
    Ok(())
}

/// A part's volume after `)` by an amount (`)` `^`): rhythm parts only move
/// while they stay below 16, others stop at their limit.
pub open spec fn volume_added(volume: i32, amount: u8, profile: CommandProfile) -> i32 {
    if profile == CommandProfile::Rhythm {
        if volume + amount < 16 { (volume + amount) as i32 } else { volume }
    } else {
        let limit = volume_limit_spec(profile_kind(profile));
        if volume + amount < limit { (volume + amount) as i32 } else { limit }
    }
}

/// `)` raises a part's volume by its amount up to the limit of its sound
/// source, where it stops; on the rhythm part a step that would reach 16
/// is not taken at all.
pub proof fn law_volume_add_stops_at_limit(volume: i32, amount: u8, profile: CommandProfile)
    ensures
        profile != CommandProfile::Rhythm ==> volume_added(volume, amount, profile)
            == vstd::math::min(volume + amount, volume_limit_spec(profile_kind(profile)) as int),
        profile == CommandProfile::Rhythm && volume + amount < 16 ==> volume_added(volume, amount, profile) == volume + amount,
        profile == CommandProfile::Rhythm && volume + amount >= 16 ==> volume_added(volume, amount, profile) == volume,
{
}

pub fn volume_add(cursor: &mut PartCursor, state: &mut CommandState, profile: CommandProfile) -> (result: Result<(), CommandError>)
    requires
        old(state).wf(),
    ensures
        final(state).channel.kind == old(state).channel.kind,
        !(result matches Err(CommandError::UnknownOpcode { .. })),
        final(state).wf(),
        final(cursor).bytes() == old(cursor).bytes(),
        result is Ok <==> old(cursor).has(1),
        result is Ok ==> final(cursor).position == old(cursor).position + 1
            && *final(state) == (CommandState {
                channel: ChannelState { volume: volume_added(old(state).channel.volume, old(cursor).at(0), profile), ..old(state).channel },
                ..*old(state)
            }),
{
    let amount = cursor.read_u8()? as i32;
    if profile.is_rhythm() {
        if state.channel.volume + amount < 16 {
            state.channel.volume = state.channel.volume + amount;
        }
    } else {
        let limit = profile.volume_limit();
        let sum = state.channel.volume + amount;
        state.channel.volume = if sum < limit { sum } else { limit };
    }
    Ok(())
}

pub fn volume_subtract(cursor: &mut PartCursor, state: &mut CommandState, profile: CommandProfile) -> (result: Result<(), CommandError>)
    requires
        old(state).wf(),
    ensures
        final(state).channel.kind == old(state).channel.kind,
        !(result matches Err(CommandError::UnknownOpcode { .. })),
        final(state).wf(),
        final(cursor).bytes() == old(cursor).bytes(),
        result is Ok <==> old(cursor).has(1),
        result is Ok ==> final(cursor).position == old(cursor).position + 1
            && *final(state) == (CommandState {
                channel: ChannelState {
                    volume: if old(state).channel.volume < old(cursor).at(0) { 0 } else { (old(state).channel.volume - old(cursor).at(0)) as i32 },
                    ..old(state).channel
                },
                ..*old(state)
            }),
{
    let amount = cursor.read_u8()? as i32;
    if state.channel.volume < amount {
        state.channel.volume = 0;
    } else {
        state.channel.volume = state.channel.volume - amount;
    }
    Ok(())
}

/// The one-note volume a `)^n` sets (stored plus one).
pub open spec fn volume_one_up_value(volume: i32, amount: u8, profile: CommandProfile) -> i32 {
    if profile == CommandProfile::Fm {
        if volume + 1 + amount < 128 { (volume + 1 + amount) as i32 } else { 128 }
    } else {
        let limit = if is_pcm_profile(profile) { 254 } else { volume_limit_spec(profile_kind(profile)) as int };
        ((if volume + amount < limit { volume + amount } else { limit }) + 1) as i32
    }
}

pub fn volume_one_up(cursor: &mut PartCursor, state: &mut CommandState, profile: CommandProfile) -> (result: Result<(), CommandError>)
    requires
        old(state).wf(),
    ensures
        final(state).channel.kind == old(state).channel.kind,
        !(result matches Err(CommandError::UnknownOpcode { .. })),
        final(state).wf(),
        final(cursor).bytes() == old(cursor).bytes(),
        result is Ok <==> old(cursor).has(1),
        result is Ok ==> final(cursor).position == old(cursor).position + 1
            && *final(state) == (CommandState {
                channel: ChannelState { vol_push: volume_one_up_value(old(state).channel.volume, old(cursor).at(0), profile), ..old(state).channel },
                globals: SequencerGlobals { volume_push_flag: 1, ..old(state).globals },
                ..*old(state)
            }),
{
    let amount = cursor.read_u8()? as i32;
    let value = if profile.is_fm() {
        let sum = state.channel.volume + 1 + amount;
        if sum < 128 { sum } else { 128 }
    } else {
        let limit = if profile.is_pcm() { 254 } else { profile.volume_limit() };
        let sum = state.channel.volume + amount;
        (if sum < limit { sum } else { limit }) + 1
    };
    state.channel.vol_push = value;
    state.globals.volume_push_flag = 1;
    Ok(())
}

/// The one-note volume a `)%n` down sets (stored plus one).
pub open spec fn volume_one_down_value(volume: i32, amount: u8) -> i32 {
    let v = volume - amount;
    ((if v < 0 { 0 } else if v >= 255 { 254 } else { v }) + 1) as i32
}

pub fn volume_one_down(cursor: &mut PartCursor, state: &mut CommandState, profile: CommandProfile) -> (result: Result<(), CommandError>)
    requires
        old(state).wf(),
    ensures
        final(state).channel.kind == old(state).channel.kind,
        !(result matches Err(CommandError::UnknownOpcode { .. })),
        final(state).wf(),
        final(cursor).bytes() == old(cursor).bytes(),
        result is Ok <==> old(cursor).has(1),
        result is Ok ==> final(cursor).position == old(cursor).position + 1
            && *final(state) == (CommandState {
                channel: ChannelState { vol_push: volume_one_down_value(old(state).channel.volume, old(cursor).at(0)), ..old(state).channel },
                globals: SequencerGlobals { volume_push_flag: 1, ..old(state).globals },
                ..*old(state)
            }),
{
    let amount = cursor.read_u8()? as i32;
    let mut value = state.channel.volume - amount;
    if value < 0 {
        value = 0;
    } else if value >= 255 {
        value = 254;
    }
    state.channel.vol_push = value + 1;
    state.globals.volume_push_flag = 1;
    Ok(())
}

/// The part after a glide between two notes over a length. On PPZ8 parts
/// the step is a sixteenth of the distance, truncated; with a slur the
/// early key-off length is zero.
pub open spec fn porta_set(c: ChannelState, profile: CommandProfile, from: u8, to: u8, length: u8, slur: bool) -> ChannelState {
    let difference = to - from;
    ChannelState {
        qdat: if slur { 0 } else { c.qdat },
        porta_from: from as i32,
        porta_to: to as i32,
        porta_length: length as i32,
        porta_delta: (if profile == CommandProfile::Ppz8 { crate::pmd::banks::trunc_div(difference, 16) } else { difference }) as i32,
        porta_enabled: true,
        ..c
    }
}

pub fn portamento(cursor: &mut PartCursor, state: &mut CommandState, profile: CommandProfile) -> (result: Result<(), CommandError>)
    requires
        old(state).wf(),
    ensures
        final(state).channel.kind == old(state).channel.kind,
        !(result matches Err(CommandError::UnknownOpcode { .. })),
        final(state).wf(),
        final(cursor).bytes() == old(cursor).bytes(),
        profile == CommandProfile::Rhythm || profile == CommandProfile::P86 ==> ({
            &&& (result is Ok <==> old(cursor).has(1))
            &&& result is Ok ==> final(cursor).position == old(cursor).position + 1 && *final(state) == *old(state)
        }),
        !(profile == CommandProfile::Rhythm || profile == CommandProfile::P86) ==> ({
            let slur = old(cursor).has(4) && old(cursor).at(3) == 0xc1;
            &&& (result is Ok <==> (old(cursor).has(3) && old(cursor).at(2) != 0))
            &&& old(cursor).has(3) && old(cursor).at(2) == 0 ==> result == Err::<(), CommandError>(
                CommandError::InvalidOperand { opcode: 0xda, value: 0 },
            )
            &&& result is Ok ==> final(cursor).position == old(cursor).position + (if slur { 4int } else { 3int })
                && *final(state) == (CommandState {
                    channel: porta_set(old(state).channel, profile, old(cursor).at(0), old(cursor).at(1), old(cursor).at(2), slur),
                    ..*old(state)
                })
        }),
{
    if profile.is_rhythm() || match profile { CommandProfile::P86 => true, _ => false } {
        return cursor.skip(1);
    }
    let from = cursor.read_u8()? as i32;
    let to = cursor.read_u8()? as i32;
    let length = cursor.read_u8()? as i32;
    if length == 0 {
        return Err(CommandError::InvalidOperand { opcode: 0xda, value: 0 });
    }
    if cursor.peek() == Some(0xc1u8) {
        cursor.skip(1)?;
        state.channel.qdat = 0;
    }
    state.channel.porta_from = from;
    state.channel.porta_to = to;
    state.channel.porta_length = length;
    let difference = to - from;
    state.channel.porta_delta = match profile {
        CommandProfile::Ppz8 => if difference >= 0 { difference / 16 } else { -((-difference) / 16) },
        _ => difference,
    };
    state.channel.porta_enabled = true;
    Ok(())
}


/// The PCM loop points `repeat start end release` (two signed words and
/// an unsigned one), kept in the part and in the shared state.
pub fn repeat_set(cursor: &mut PartCursor, state: &mut CommandState) -> (result: Result<(), CommandError>)
    requires
        old(state).wf(),
    ensures
        final(state).channel.kind == old(state).channel.kind,
        !(result matches Err(CommandError::UnknownOpcode { .. })),
        final(state).wf(),
        final(cursor).bytes() == old(cursor).bytes(),
        result is Ok <==> old(cursor).has(6),
        result is Ok ==> final(cursor).position == old(cursor).position + 6 && *final(state) == ({
            let start = signed16(old(cursor).at(0), old(cursor).at(1)) as i32;
            let end = signed16(old(cursor).at(2), old(cursor).at(3)) as i32;
            let release = unsigned16(old(cursor).at(4), old(cursor).at(5)) as i32;
            CommandState {
                channel: ChannelState { repeat_start: start, repeat_end: end, release_start: release, ..old(state).channel },
                globals: SequencerGlobals {
                    pcm_repeat_start: start,
                    pcm_repeat_end: end,
                    pcm_release: release,
                    ..old(state).globals
                },
                ..*old(state)
            }
        }),
{
    state.channel.repeat_start = cursor.read_i16_le()? as i32;
    state.channel.repeat_end = cursor.read_i16_le()? as i32;
    state.channel.release_start = cursor.read_u16_le()? as i32;
    state.globals.pcm_repeat_start = state.channel.repeat_start;
    state.globals.pcm_repeat_end = state.channel.repeat_end;
    state.globals.pcm_release = state.channel.release_start;
    Ok(())
}

/// The carrier slots of an FM algorithm (clamped to 0..=7), as a slot mask.
pub open spec fn algorithm_carrier(algorithm: int) -> i32 {
    let a = if algorithm < 0 { 0 } else if algorithm > 7 { 7 } else { algorithm };
    if a <= 3 { 0x80 } else if a == 4 { 0xa0 } else if a <= 6 { 0xe0 } else { 0xf0 }
}

/// The carriers of the eight FM algorithms: algorithms 0 to 3 sound
/// through slot 4 alone, 4 through slots 2 and 4, 5 and 6 through slots 2
/// to 4, and 7 through all four (slot 1 is bit 4 of the mask, slot 4 bit 7).
pub proof fn law_algorithm_carriers(algorithm: int)
    requires
        0 <= algorithm <= 7,
    ensures
        algorithm <= 3 ==> algorithm_carrier(algorithm) == 0x80,
        algorithm == 4 ==> algorithm_carrier(algorithm) == 0x80 + 0x20,
        5 <= algorithm <= 6 ==> algorithm_carrier(algorithm) == 0x80 + 0x40 + 0x20,
        algorithm == 7 ==> algorithm_carrier(algorithm) == 0x80 + 0x40 + 0x20 + 0x10,
{
}

pub fn carrier_for_algorithm(algorithm: i32) -> (carrier: i32)
    ensures
        carrier == algorithm_carrier(algorithm as int),
{
    let a = if algorithm < 0 { 0 } else if algorithm > 7 { 7 } else { algorithm };
    if a <= 3 {
        0x80
    } else if a == 4 {
        0xa0
    } else if a <= 6 {
        0xe0
    } else {
        0xf0
    }
}

/// Whether the part is the third FM channel of the first bank, whose slots
/// are shared.
pub open spec fn is_fm3(state: CommandState) -> bool {
    state.fm_channel == 2 && state.globals.fm_select == 0
}

/// The key-on operator bits for a slot mask (register 0x28 order).
pub open spec fn voice_mask_of(slots: u8) -> u8 {
    (if slots & 0x80 != 0 { 0x11u8 } else { 0u8 }) | (if slots & 0x40 != 0 { 0x44u8 } else { 0u8 })
        | (if slots & 0x20 != 0 { 0x22u8 } else { 0u8 }) | (if slots & 0x10 != 0 { 0x88u8 } else { 0u8 })
}

/// The part after `s` (slot mask): the high nibble selects the slots that
/// play, the low nibble (or the FM3 algorithm) the carriers.
pub open spec fn slot_masked(state: CommandState, value: u8) -> ChannelState {
    let c = state.channel;
    let low = value & 0x0f;
    let slots = value & 0xf0;
    ChannelState {
        carrier: if low != 0 {
            (low * 16) as i32
        } else if is_fm3(state) {
            algorithm_carrier((state.globals.fm3_alg_fb as u8 & 7) as int)
        } else {
            c.carrier
        },
        slot_mask: slots as i32,
        part_mask: (if slots == 0 { (c.part_mask as u8) | 0x20 } else { (c.part_mask as u8) & 0xdf }) as i32,
        voice_mask: voice_mask_of(slots) as i32,
        ..c
    }
}

pub fn slot_mask(cursor: &mut PartCursor, state: &mut CommandState) -> (result: Result<(), CommandError>)
    requires
        old(state).wf(),
    ensures
        final(state).channel.kind == old(state).channel.kind,
        !(result matches Err(CommandError::UnknownOpcode { .. })),
        final(state).wf(),
        final(cursor).bytes() == old(cursor).bytes(),
        result is Ok <==> old(cursor).has(1),
        result is Ok ==> final(cursor).position == old(cursor).position + 1
            && *final(state) == (CommandState { channel: slot_masked(*old(state), old(cursor).at(0)), ..*old(state) }),
{
    let value = cursor.read_u8()?;
    let low = value & 0x0f;
    if low != 0 {
        state.channel.carrier = (low * 16) as i32;
    } else if state.fm_channel == 2 && state.globals.fm_select == 0 {
        state.channel.carrier = carrier_for_algorithm((state.globals.fm3_alg_fb as u8 & 7) as i32);
    }
    let slots = value & 0xf0;
    state.channel.slot_mask = slots as i32;
    let part = state.channel.part_mask as u8;
    state.channel.part_mask = (if slots == 0 { part | 0x20 } else { part & 0xdf }) as i32;
    let mut voices: u8 = if slots & 0x80 != 0 { 0x11 } else { 0 };
    voices = voices | if slots & 0x40 != 0 { 0x44u8 } else { 0u8 };
    voices = voices | if slots & 0x20 != 0 { 0x22u8 } else { 0u8 };
    voices = voices | if slots & 0x10 != 0 { 0x88u8 } else { 0u8 };
    state.channel.voice_mask = voices as i32;
    Ok(())
}

/// One slot's detune after `sd`/`sdd`: set, or moved (wrapping), when its
/// bit is in the mask.
pub open spec fn slot_detuned(current: i32, selected: bool, relative: bool, value: i32) -> i32 {
    if !selected {
        current
    } else if relative {
        vstd::wrapping::i32_specs::wrapping_add(current, value)
    } else {
        value
    }
}

/// The four slot detunes after `sd`/`sdd` with a slot mask.
pub open spec fn slots_detuned(slots: Seq<i32>, mask: u8, relative: bool, value: i32) -> Seq<i32> {
    Seq::new(4, |i: int| slot_detuned(slots[i], mask_has(mask as u32, i), relative, value))
}

/// Whether any shared FM3 slot detune is set.
pub open spec fn any_detune(slots: Seq<i32>) -> bool {
    exists|i: int| 0 <= i < 4 && slots[i] != 0
}

fn detune_slots(slots: &mut [i32; 4], mask: u8, relative: bool, value: i32)
    ensures
        final(slots)@ == slots_detuned(old(slots)@, mask, relative, value),
{
    let ghost start = slots@;
    let mut index: usize = 0;
    while index < 4
        invariant
            index <= 4,
            slots@.len() == 4,
            start.len() == 4,
            forall|i: int| 0 <= i < index ==> slots@[i] == slot_detuned(start[i], mask_has(mask as u32, i), relative, value),
            forall|i: int| index <= i < 4 ==> slots@[i] == start[i],
        decreases 4 - index,
    {
        let bit: u32 = 1u32 << (index as u32);
        if (mask as u32) & bit != 0 {
            slots[index] = if relative { slots[index].wrapping_add(value) } else { value };
        }
        index = index + 1;
    }
    assert(slots@ =~= slots_detuned(start, mask, relative, value));
}

pub fn slot_detune(cursor: &mut PartCursor, state: &mut CommandState, relative: bool) -> (result: Result<(), CommandError>)
    requires
        old(state).wf(),
    ensures
        final(state).channel.kind == old(state).channel.kind,
        !(result matches Err(CommandError::UnknownOpcode { .. })),
        final(state).wf(),
        final(cursor).bytes() == old(cursor).bytes(),
        result is Ok <==> old(cursor).has(3),
        result is Ok ==> ({
            let mask = old(cursor).at(0);
            let value = signed16(old(cursor).at(1), old(cursor).at(2)) as i32;
            &&& final(cursor).position == old(cursor).position + 3
            &&& final(state).channel.slot_detune@ == slots_detuned(old(state).channel.slot_detune@, mask, relative, value)
            &&& is_fm3(*old(state)) ==> final(state).globals.fm3_slot_detune@
                == slots_detuned(old(state).globals.fm3_slot_detune@, mask, relative, value)
                && final(state).globals.fm3_slot_detune_flag == (if any_detune(final(state).globals.fm3_slot_detune@) { 1i32 } else { 0i32 })
            &&& *final(state) == (CommandState {
                channel: ChannelState { slot_detune: final(state).channel.slot_detune, ..old(state).channel },
                globals: if is_fm3(*old(state)) {
                    SequencerGlobals {
                        fm3_slot_detune: final(state).globals.fm3_slot_detune,
                        fm3_slot_detune_flag: final(state).globals.fm3_slot_detune_flag,
                        ..old(state).globals
                    }
                } else {
                    old(state).globals
                },
                ..*old(state)
            })
        }),
{
    let mask = cursor.read_u8()?;
    let value = cursor.read_i16_le()? as i32;
    let fm3 = state.fm_channel == 2 && state.globals.fm_select == 0;
    detune_slots(&mut state.channel.slot_detune, mask, relative, value);
    if fm3 {
        detune_slots(&mut state.globals.fm3_slot_detune, mask, relative, value);
        let mut any = false;
        let mut index: usize = 0;
        while index < 4
            invariant
                index <= 4,
                state.globals.fm3_slot_detune@.len() == 4,
                any <==> exists|i: int| 0 <= i < index && state.globals.fm3_slot_detune@[i] != 0,
            decreases 4 - index,
        {
            if state.globals.fm3_slot_detune[index] != 0 {
                any = true;
            }
            index = index + 1;
        }
        state.globals.fm3_slot_detune_flag = if any { 1 } else { 0 };
    }
    Ok(())
}

/// The part after `MD` with the secondary LFO's delay: the LFOs are swapped
/// round the update, except on SSG parts, which keep them swapped.
pub open spec fn secondary_delay_set(c: ChannelState, profile: CommandProfile, value: u8) -> ChannelState {
    let swapped = lfo_swapped(c);
    let reset = lfo_reset(ChannelState { delay: value as i32, secondary_delay: value as i32, ..swapped });
    if profile == CommandProfile::Ssg { reset } else { lfo_swapped(reset) }
}

pub fn secondary_lfo_delay(cursor: &mut PartCursor, state: &mut CommandState, profile: CommandProfile) -> (result: Result<(), CommandError>)
    requires
        old(state).wf(),
    ensures
        final(state).channel.kind == old(state).channel.kind,
        !(result matches Err(CommandError::UnknownOpcode { .. })),
        final(state).wf(),
        final(cursor).bytes() == old(cursor).bytes(),
        result is Ok <==> old(cursor).has(1),
        result is Ok ==> final(cursor).position == old(cursor).position + 1
            && *final(state) == (CommandState {
                channel: if supports_lfo_profile(profile) {
                    secondary_delay_set(old(state).channel, profile, old(cursor).at(0))
                } else {
                    old(state).channel
                },
                ..*old(state)
            }),
{
    if !profile.supports_lfo() {
        return cursor.skip(1);
    }
    state.channel.swap_lfo();
    let value = cursor.read_u8()?;
    state.channel.delay = value as i32;
    state.channel.secondary_delay = value as i32;
    state.channel.reset_lfo_main();
    if !profile.is_ssg() {
        state.channel.swap_lfo();
    }
    Ok(())
}

/// The LFO switch with the secondary LFO's three bits replaced.
pub open spec fn secondary_switch(lfoswi: i32, value: u8) -> i32 {
    (((lfoswi as u8) & 0x8f) | ((value & 7) * 16) as u8) as i32
}

pub fn switch_secondary_lfo(cursor: &mut PartCursor, state: &mut CommandState, profile: CommandProfile) -> (result: Result<(), CommandError>)
    requires
        old(state).wf(),
    ensures
        final(state).channel.kind == old(state).channel.kind,
        !(result matches Err(CommandError::UnknownOpcode { .. })),
        final(state).wf(),
        final(cursor).bytes() == old(cursor).bytes(),
        result is Ok <==> old(cursor).has(1),
        result is Ok ==> final(cursor).position == old(cursor).position + 1
            && *final(state) == (CommandState {
                channel: if profile == CommandProfile::Rhythm || profile == CommandProfile::P86 {
                    old(state).channel
                } else {
                    lfo_swapped(lfo_reset(lfo_swapped(ChannelState {
                        lfoswi: secondary_switch(old(state).channel.lfoswi, old(cursor).at(0)),
                        ..old(state).channel
                    })))
                },
                ..*old(state)
            }),
{
    if profile.is_rhythm() || match profile { CommandProfile::P86 => true, _ => false } {
        return cursor.skip(1);
    }
    let value = cursor.read_u8()?;
    state.channel.lfoswi = (((state.channel.lfoswi as u8) & 0x8f) | ((value & 7) * 16)) as i32;
    state.channel.swap_lfo();
    state.channel.reset_lfo_main();
    state.channel.swap_lfo();
    Ok(())
}

/// A slot's total level after `O`: absolute (low seven bits) or moved by a
/// signed amount, stopping at 0 and, when raised, at 127.
pub open spec fn slot_level(current: i32, absolute: bool, value: u8) -> i32 {
    if absolute {
        (value & 0x7f) as i32
    } else {
        let candidate = current + signed8(value);
        if candidate < 0 { 0 } else if signed8(value) >= 0 && candidate > 127 { 127 } else { candidate as i32 }
    }
}

/// The slots `O` selects: the selector's low nibble within the playing slots.
pub open spec fn level_selector(selector: u8, slots: i32) -> u8 {
    (selector & 0x0f) & (((slots as u8) >> 4) | (((slots as u8) & 0x0f) * 16) as u8)
}

/// The slot a selector bit stands for, and its register offset.
pub open spec fn level_slot(bit: int) -> int {
    if bit == 0 { 0 } else if bit == 1 { 2 } else if bit == 2 { 1 } else { 3 }
}

/// The total levels after `O`.
pub open spec fn slot_levels(levels: Seq<i32>, selected: u8, absolute: bool, value: u8) -> Seq<i32> {
    Seq::new(4, |i: int| {
        let bit = if i == 0 { 1u8 } else if i == 2 { 2u8 } else if i == 1 { 4u8 } else { 8u8 };
        if selected & bit != 0 { slot_level(levels[i], absolute, value) } else { levels[i] }
    })
}

/// The register write of one selected slot, if any.
pub open spec fn level_write(selected: u8, bit: u8, base: int, offset: int, level: i32) -> Seq<RegisterWrite> {
    if selected & bit != 0 {
        seq![RegisterWrite { address: (base + offset) as u16, value: level as u8 }]
    } else {
        seq![]
    }
}

/// The writes of `O`, in selector-bit order.
pub open spec fn level_writes(selected: u8, base: int, levels: Seq<i32>) -> Seq<RegisterWrite> {
    level_write(selected, 1, base, 0, levels[0]) + level_write(selected, 2, base, 8, levels[2])
        + level_write(selected, 4, base, 4, levels[1]) + level_write(selected, 8, base, 12, levels[3])
}

fn apply_slot_level(state: &mut CommandState, selected: u8, bit: u8, slot: usize, offset: u16, absolute: bool, value: u8)
    requires
        old(state).wf(),
        slot < 4,
        offset <= 12,
    ensures
        final(state).channel.kind == old(state).channel.kind,
        final(state).wf(),
        final(state).channel.slot_tl@ == old(state).channel.slot_tl@.update(
            slot as int,
            if selected & bit != 0 { slot_level(old(state).channel.slot_tl@[slot as int], absolute, value) } else { old(state).channel.slot_tl@[slot as int] },
        ),
        final(state).writes@ == old(state).writes@ + (if old(state).channel.part_mask == 0 {
            level_write(selected, bit, old(state).globals.fm_select + 0x40 + old(state).fm_channel, offset as int,
                slot_level(old(state).channel.slot_tl@[slot as int], absolute, value))
        } else {
            Seq::<RegisterWrite>::empty()
        }),
        *final(state) == (CommandState {
            channel: ChannelState { slot_tl: final(state).channel.slot_tl, ..old(state).channel },
            writes: final(state).writes,
            ..*old(state)
        }),
{
    if selected & bit == 0 {
        assert(state.channel.slot_tl@.update(slot as int, state.channel.slot_tl@[slot as int]) =~= state.channel.slot_tl@);
        assert(state.writes@ + Seq::<RegisterWrite>::empty() =~= state.writes@);
        assert(state.writes@ + level_write(selected, bit, state.globals.fm_select + 0x40 + state.fm_channel, offset as int,
            slot_level(state.channel.slot_tl@[slot as int], absolute, value)) =~= state.writes@);
        return;
    }
    let current = state.channel.slot_tl[slot];
    let level = if absolute {
        (value & 0x7f) as i32
    } else {
        let amount: i32 = if value < 128 { value as i32 } else { value as i32 - 256 };
        let candidate = current + amount;
        if candidate < 0 { 0 } else if amount >= 0 && candidate > 127 { 127 } else { candidate }
    };
    state.channel.slot_tl[slot] = level;
    let ghost before = state.writes@;
    if state.channel.part_mask == 0 {
        let address = state.globals.fm_select + 0x40 + state.fm_channel + offset;
        state.write_register(address, level as u8);
        assert(state.writes@ =~= before + level_write(selected, bit, state.globals.fm_select + 0x40 + state.fm_channel, offset as int, level));
    } else {
        assert(state.writes@ =~= before + Seq::<RegisterWrite>::empty());
    }
}

#[verifier::rlimit(100)]
#[verifier::spinoff_prover]
pub fn total_level_set(cursor: &mut PartCursor, state: &mut CommandState) -> (result: Result<(), CommandError>)
    requires
        old(state).wf(),
    ensures
        final(state).channel.kind == old(state).channel.kind,
        !(result matches Err(CommandError::UnknownOpcode { .. })),
        final(state).wf(),
        final(cursor).bytes() == old(cursor).bytes(),
        result is Ok <==> old(cursor).has(2),
        result is Ok ==> ({
            let selected = level_selector(old(cursor).at(0), old(state).channel.slot_mask);
            let levels = slot_levels(old(state).channel.slot_tl@, selected, old(cursor).at(0) < 128, old(cursor).at(1));
            &&& final(cursor).position == old(cursor).position + 2
            &&& final(state).channel.slot_tl@ == levels
            &&& final(state).writes@ == old(state).writes@ + (if old(state).channel.part_mask == 0 {
                level_writes(selected, old(state).globals.fm_select + 0x40 + old(state).fm_channel, levels)
            } else {
                Seq::<RegisterWrite>::empty()
            })
            &&& *final(state) == (CommandState {
                channel: ChannelState { slot_tl: final(state).channel.slot_tl, ..old(state).channel },
                writes: final(state).writes,
                ..*old(state)
            })
        }),
{
    let selector = cursor.read_u8()?;
    let value = cursor.read_u8()?;
    let slots = state.channel.slot_mask as u8;
    let selected = (selector & 0x0f) & ((slots >> 4) | ((slots & 0x0f) * 16));
    let absolute = selector < 128;
    let ghost s0 = *state;
    apply_slot_level(state, selected, 1, 0, 0, absolute, value);
    apply_slot_level(state, selected, 2, 2, 8, absolute, value);
    apply_slot_level(state, selected, 4, 1, 4, absolute, value);
    apply_slot_level(state, selected, 8, 3, 12, absolute, value);
    proof {
        let levels = slot_levels(s0.channel.slot_tl@, selected, absolute, value);
        assert(state.channel.slot_tl@ =~= levels);
        let base = s0.globals.fm_select + 0x40 + s0.fm_channel;
        if s0.channel.part_mask == 0 {
            assert(state.writes@ =~= s0.writes@ + level_writes(selected, base, levels));
        } else {
            assert(state.writes@ =~= s0.writes@ + Seq::<RegisterWrite>::empty());
        }
    }
    Ok(())
}


/// The feedback bits `FB` writes for its operand and the current
/// algorithm/feedback byte: a plain operand is moved into bits 3 to 5 (its
/// top bits fold into the low ones as the driver does), a negative one
/// (with bit 6 clear only its low three bits count) moves the current
/// feedback, stopping at 0 and 7.
pub open spec fn feedback_bits(operand: u8, current: u8) -> u8 {
    if operand < 128 {
        ((operand % 32) * 8 + operand / 32) as u8
    } else {
        let base: int = if (operand / 64) % 2 == 0 { (operand % 8) as int } else { operand - 256 };
        let moved = base + (current / 8) % 8;
        if moved < 0 { 0 } else if moved >= 8 { 0x38 } else { (moved * 8) as u8 }
    }
}

/// The algorithm/feedback byte after `FB`.
pub open spec fn feedback_value(operand: u8, current: i32) -> u8 {
    ((current as u8) & 7) | feedback_bits(operand, current as u8)
}

pub fn feedback_set(cursor: &mut PartCursor, state: &mut CommandState) -> (result: Result<(), CommandError>)
    requires
        old(state).wf(),
    ensures
        final(state).channel.kind == old(state).channel.kind,
        !(result matches Err(CommandError::UnknownOpcode { .. })),
        final(state).wf(),
        final(cursor).bytes() == old(cursor).bytes(),
        result is Ok <==> old(cursor).has(1),
        result is Ok ==> final(cursor).position == old(cursor).position + 1 && ({
            let fm3 = is_fm3(*old(state));
            let current = if fm3 { old(state).globals.fm3_alg_fb } else { old(state).channel.algorithm_feedback };
            let value = feedback_value(old(cursor).at(0), current);
            if fm3 && old(state).channel.slot_mask & 0x10 == 0 {
                *final(state) == *old(state)
            } else {
                &&& final(state).writes@ == old(state).writes@.push(RegisterWrite {
                    address: (old(state).globals.fm_select + 0xb0 + old(state).fm_channel) as u16,
                    value,
                })
                &&& *final(state) == (CommandState {
                    channel: ChannelState { algorithm_feedback: value as i32, ..old(state).channel },
                    globals: SequencerGlobals {
                        fm3_alg_fb: if fm3 { value as i32 } else { old(state).globals.fm3_alg_fb },
                        ..old(state).globals
                    },
                    writes: final(state).writes,
                    ..*old(state)
                })
            }
        }),
{
    let operand = cursor.read_u8()?;
    let fm3 = state.fm_channel == 2 && state.globals.fm_select == 0;
    let current = if fm3 { state.globals.fm3_alg_fb } else { state.channel.algorithm_feedback };
    if fm3 && state.channel.slot_mask & 0x10 == 0 {
        return Ok(());
    }
    let current_byte = current as u8;
    let bits: u8 = if operand < 128 {
        (operand % 32) * 8 + operand / 32
    } else {
        let base: i32 = if (operand / 64) % 2 == 0 { (operand % 8) as i32 } else { operand as i32 - 256 };
        let moved = base + ((current_byte / 8) % 8) as i32;
        if moved < 0 { 0 } else if moved >= 8 { 0x38 } else { (moved * 8) as u8 }
    };
    let value = (current_byte & 7) | bits;
    if fm3 {
        state.globals.fm3_alg_fb = value as i32;
    }
    state.channel.algorithm_feedback = value as i32;
    let address = state.globals.fm_select + 0xb0 + state.fm_channel;
    state.write_register(address, value);
    Ok(())
}

/// The shared value a special part-mask command (opcodes 0xf5 to 0xff in
/// the operand of `0xc0`) changes; `None` for any other.
pub open spec fn special_mask_globals(g: SequencerGlobals, opcode: u8, value: u8) -> Option<SequencerGlobals> {
    let signed = signed8(value) as i32;
    let moved = |a: i32| vstd::wrapping::i32_specs::wrapping_add(a, signed);
    if opcode == 0xff {
        Some(SequencerGlobals { fm_volume_down: value as i32, ..g })
    } else if opcode == 0xfe {
        Some(SequencerGlobals { fm_volume_down: moved(g.fm_volume_down), ..g })
    } else if opcode == 0xfd {
        Some(SequencerGlobals { ssg_volume_down: value as i32, ..g })
    } else if opcode == 0xfc {
        Some(SequencerGlobals { ssg_volume_down: moved(g.ssg_volume_down), ..g })
    } else if opcode == 0xfb {
        Some(SequencerGlobals { pcm_volume_down: value as i32, ..g })
    } else if opcode == 0xfa {
        Some(SequencerGlobals { pcm_volume_down: moved(g.pcm_volume_down), ..g })
    } else if opcode == 0xf9 {
        Some(SequencerGlobals { rhythm_volume_down: value as i32, ..g })
    } else if opcode == 0xf8 {
        Some(SequencerGlobals { rhythm_volume_down_saved: moved(g.rhythm_volume_down_saved), ..g })
    } else if opcode == 0xf7 {
        Some(SequencerGlobals { pcm86_volume: (value & 1) as i32, ..g })
    } else if opcode == 0xf6 {
        Some(SequencerGlobals { ppz_volume_down: value as i32, ..g })
    } else if opcode == 0xf5 {
        Some(SequencerGlobals { ppz_volume_down: moved(g.ppz_volume_down), ..g })
    } else {
        None
    }
}

/// A special part-mask command: it reads one operand and changes a shared
/// volume; an unknown one patches the driver's end mark over its operand and
/// stops there.
pub fn special_part_mask(cursor: &mut PartCursor, state: &mut CommandState, opcode: u8) -> (result: Result<(), CommandError>)
    requires
        old(state).wf(),
    ensures
        final(state).channel.kind == old(state).channel.kind,
        !(result matches Err(CommandError::UnknownOpcode { .. })),
        final(state).wf(),
        result is Ok <==> old(cursor).has(1),
        result is Ok ==> match special_mask_globals(old(state).globals, opcode, old(cursor).at(0)) {
            Some(g) => final(cursor).position == old(cursor).position + 1
                && final(cursor).bytes() == old(cursor).bytes()
                && *final(state) == (CommandState { globals: g, ..*old(state) }),
            None => final(cursor).position == old(cursor).position
                && final(cursor).bytes() == old(cursor).bytes().update(old(cursor).position as int, 0x80)
                && *final(state) == *old(state),
        },
        result is Err ==> final(cursor).bytes() == old(cursor).bytes(),
{
    let operand_position = cursor.position;
    let value = cursor.read_u8()?;
    let signed: i32 = if value < 128 { value as i32 } else { value as i32 - 256 };
    if opcode == 0xff {
        state.globals.fm_volume_down = value as i32;
    } else if opcode == 0xfe {
        state.globals.fm_volume_down = state.globals.fm_volume_down.wrapping_add(signed);
    } else if opcode == 0xfd {
        state.globals.ssg_volume_down = value as i32;
    } else if opcode == 0xfc {
        state.globals.ssg_volume_down = state.globals.ssg_volume_down.wrapping_add(signed);
    } else if opcode == 0xfb {
        state.globals.pcm_volume_down = value as i32;
    } else if opcode == 0xfa {
        state.globals.pcm_volume_down = state.globals.pcm_volume_down.wrapping_add(signed);
    } else if opcode == 0xf9 {
        state.globals.rhythm_volume_down = value as i32;
    } else if opcode == 0xf8 {
        state.globals.rhythm_volume_down_saved = state.globals.rhythm_volume_down_saved.wrapping_add(signed);
    } else if opcode == 0xf7 {
        state.globals.pcm86_volume = (value & 1) as i32;
    } else if opcode == 0xf6 {
        state.globals.ppz_volume_down = value as i32;
    } else if opcode == 0xf5 {
        state.globals.ppz_volume_down = state.globals.ppz_volume_down.wrapping_add(signed);
    } else {
        cursor.write_at(operand_position, 0x80)?;
        cursor.set_position(operand_position)?;
    }
    Ok(())
}

/// The part mask after `m0`/`m1` (bit 6 is the user mask).
pub open spec fn user_masked(part_mask: i32, value: u8) -> i32 {
    (if value != 0 { (part_mask as u8) | 0x40 } else { (part_mask as u8) & 0xbf }) as i32
}

pub fn part_mask(cursor: &mut PartCursor, state: &mut CommandState, profile: CommandProfile) -> (result: Result<(), CommandError>)
    requires
        old(state).wf(),
    ensures
        final(state).channel.kind == old(state).channel.kind,
        !(result matches Err(CommandError::UnknownOpcode { .. })),
        final(state).wf(),
        old(cursor).has(1) && old(cursor).at(0) >= 2 ==> ({
            let opcode = old(cursor).at(0);
            &&& (result is Ok <==> old(cursor).has(2))
            &&& result is Ok ==> match special_mask_globals(old(state).globals, opcode, old(cursor).at(1)) {
                Some(g) => final(cursor).position == old(cursor).position + 2
                    && final(cursor).bytes() == old(cursor).bytes()
                    && *final(state) == (CommandState { globals: g, ..*old(state) }),
                None => final(cursor).position == old(cursor).position + 1
                    && final(cursor).bytes() == old(cursor).bytes().update(old(cursor).position + 1, 0x80)
                    && *final(state) == *old(state),
            }
            &&& result is Err ==> final(cursor).bytes() == old(cursor).bytes()
        }),
        !(old(cursor).has(1) && old(cursor).at(0) >= 2) ==> ({
            &&& final(cursor).bytes() == old(cursor).bytes()
            &&& (result is Ok <==> old(cursor).has(1))
            &&& result is Ok ==> final(cursor).position == old(cursor).position + 1
                && *final(state) == (CommandState {
                    channel: ChannelState { part_mask: user_masked(old(state).channel.part_mask, old(cursor).at(0)), ..old(state).channel },
                    ..*old(state)
                })
        }),
{
    let value = cursor.read_u8()?;
    if value >= 2 {
        return special_part_mask(cursor, state, value);
    }
    let mask = state.channel.part_mask as u8;
    let masked = value != 0 || (profile.is_fm() && value == 1);
    state.channel.part_mask = (if masked { mask | 0x40 } else { mask & 0xbf }) as i32;
    Ok(())
}


/// The state with a new part work area.
pub open spec fn with_channel(o: CommandState, c: ChannelState) -> CommandState {
    CommandState { channel: c, ..o }
}

/// The state with new shared driver values.
pub open spec fn with_globals(o: CommandState, g: SequencerGlobals) -> CommandState {
    CommandState { globals: g, ..o }
}

/// The stream is unchanged and the cursor moved past `n` operand bytes.
pub open spec fn advanced(d: Seq<u8>, p: int, fd: Seq<u8>, fp: int, n: int) -> bool {
    fd == d && fp == p + n
}

/// Whether the sound source has LFO commands.
pub open spec fn lfo_profile(profile: CommandProfile) -> bool {
    !(profile == CommandProfile::Rhythm || profile == CommandProfile::P86)
}

/// The operand bytes a command takes on a sound source, or -1 where that
/// depends on the operands (tempo, loops, portamento, part masks).
pub open spec fn command_length(profile: CommandProfile, opcode: u8) -> int {
    if opcode == 0xfc || opcode == 0xf8 || opcode == 0xf7 || opcode == 0xc0 {
        -1
    } else if opcode == 0xda {
        if lfo_profile(profile) { -1 } else { 1 }
    } else if opcode == 0xfb || opcode == 0xf6 || opcode == 0xf4 || opcode == 0xf3 || opcode == 0xc1 {
        0
    } else if opcode == 0xfa || opcode == 0xf9 || opcode == 0xef || opcode == 0xe5 || opcode == 0xd6 || opcode == 0xd5
        || opcode == 0xc3 || opcode == 0xbd || opcode == 0xb8 || opcode == 0xb5 {
        2
    } else if opcode == 0xc8 || opcode == 0xc7 {
        3
    } else if opcode == 0xf2 || opcode == 0xf0 || opcode == 0xbf {
        4
    } else if opcode == 0xcd {
        5
    } else if opcode == 0xce || opcode == 0xc6 {
        6
    } else if opcode == 0xb4 {
        16
    } else if opcode >= 0xb1 {
        1
    } else {
        -1
    }
}

/// The commands that refuse some operands besides a short stream.
pub open spec fn checks_operand(opcode: u8) -> bool {
    opcode == 0xf9 || opcode == 0xea || opcode == 0xe9 || opcode == 0xe5
}

/// Volume up by one step (`)` without operand).
pub open spec fn volume_up_step(volume: i32, profile: CommandProfile) -> i32 {
    if profile == CommandProfile::Fm {
        if volume + 4 < 127 { (volume + 4) as i32 } else { 127 }
    } else if profile == CommandProfile::Ssg || profile == CommandProfile::Rhythm {
        if volume < 15 { (volume + 1) as i32 } else { volume }
    } else if volume < 239 {
        (volume + 16) as i32
    } else {
        255
    }
}

/// Volume down by one step (`(` without operand).
pub open spec fn volume_down_step(volume: i32, profile: CommandProfile) -> i32 {
    if profile == CommandProfile::Fm {
        if volume - 4 > 0 { (volume - 4) as i32 } else { 0 }
    } else if profile == CommandProfile::Ssg || profile == CommandProfile::Rhythm {
        if volume > 0 { (volume - 1) as i32 } else { volume }
    } else if volume < 16 {
        0
    } else {
        (volume - 16) as i32
    }
}

/// A rhythm voice's level byte replaced and written to its register.
pub open spec fn rhythm_voice_set(o: CommandState, f: CommandState, index: int, data: u8) -> bool {
    &&& f.writes@ == o.writes@.push(RegisterWrite { address: (0x18 + index) as u16, value: data })
    &&& f.globals.rhythm_data@ == o.globals.rhythm_data@.update(index, data as i32)
    &&& f == (CommandState {
        writes: f.writes,
        globals: SequencerGlobals { rhythm_data: f.globals.rhythm_data, ..o.globals },
        ..o
    })
}

/// The effect request a sound-effect command makes.
pub open spec fn effect_request_for(value: u8) -> EffectRequest {
    if value == 0 { EffectRequest::Stop } else { EffectRequest::Start { index: value & 0x7f, correction: 1 } }
}

/// What a command with an opcode from 0xe0 to 0xff did when it succeeded:
/// `o`, `d`, `p` before (the cursor just past the opcode), `f`, `fd`, `fp`
/// after.
#[verifier::opaque]
pub open spec fn high_command_done(
    opcode: u8,
    profile: CommandProfile,
    o: CommandState,
    f: CommandState,
    d: Seq<u8>,
    p: int,
    fd: Seq<u8>,
    fp: int,
) -> bool {
    let c = o.channel;
    let g = o.globals;
    let a = d[p];
    let b = d[p + 1];
    let rhythm = profile == CommandProfile::Rhythm;
    let fm = profile == CommandProfile::Fm;
    let ssg = profile == CommandProfile::Ssg;
    if opcode == 0xff {
        f == with_channel(o, ChannelState { voice_number: a as i32, ..c }) && advanced(d, p, fd, fp, 1)
    } else if opcode == 0xfe {
        f == with_channel(o, ChannelState {
            qdata: a as i32,
            qdat3: if !rhythm && !is_pcm_profile(profile) { 0 } else { c.qdat3 },
            ..c
        }) && advanced(d, p, fd, fp, 1)
    } else if opcode == 0xfd {
        f == with_channel(o, ChannelState { volume: a as i32, ..c }) && advanced(d, p, fd, fp, 1)
    } else if opcode == 0xfc {
        f == with_globals(o, SequencerGlobals { tempo: tempo_changed(a, b, g.tempo), ..g })
            && advanced(d, p, fd, fp, if a <= 250 { 1 } else { 2 })
    } else if opcode == 0xfb {
        f == with_globals(o, SequencerGlobals { tie_flag: g.tie_flag | 1, ..g }) && advanced(d, p, fd, fp, 0)
    } else if opcode == 0xfa {
        f == with_channel(o, ChannelState { detune: signed16(a, b) as i32, ..c }) && advanced(d, p, fd, fp, 2)
    } else if opcode == 0xf9 {
        f == o && fd == d.update(unsigned16(a, b) + 1, 0) && fp == p + 2
    } else if opcode == 0xf8 {
        f == with_channel(o, f.channel) && (f.channel, fd, fp) == loop_end_result(c, d, p)
    } else if opcode == 0xf7 {
        f == o && fd == d && fp == loop_exit_position(d, p)
    } else if opcode == 0xf6 {
        f == with_channel(o, ChannelState { part_loop: Some(p as usize), ..c }) && advanced(d, p, fd, fp, 0)
    } else if opcode == 0xf5 {
        (if rhythm { f == o } else { f == with_channel(o, ChannelState { shift: signed8(a) as i32, ..c }) })
            && advanced(d, p, fd, fp, 1)
    } else if opcode == 0xf4 {
        f == with_channel(o, ChannelState { volume: volume_up_step(c.volume, profile), ..c }) && advanced(d, p, fd, fp, 0)
    } else if opcode == 0xf3 {
        f == with_channel(o, ChannelState { volume: volume_down_step(c.volume, profile), ..c }) && advanced(d, p, fd, fp, 0)
    } else if opcode == 0xf2 {
        (if rhythm { f == o } else { f == with_channel(o, lfo_set(c, a, b, d[p + 2], d[p + 3])) })
            && advanced(d, p, fd, fp, 4)
    } else if opcode == 0xf1 {
        (if rhythm {
            f == with_channel(o, ChannelState { pdr_switch: a as i32, ..c })
        } else {
            f == with_channel(o, lfo_reset(ChannelState { lfoswi: (c.lfoswi & !7i32) | lfo_switch_value(a), ..c }))
        }) && advanced(d, p, fd, fp, 1)
    } else if opcode == 0xf0 {
        (if fm || rhythm { f == o } else { f == with_channel(o, psg_envelope_set(c, a, b, d[p + 2], d[p + 3])) })
            && advanced(d, p, fd, fp, 4)
    } else if opcode == 0xef {
        &&& f == (CommandState { writes: f.writes, ..o })
        &&& f.writes@ == o.writes@.push(RegisterWrite { address: (raw_register_base(profile, g.fm_select) + a) as u16, value: b })
        &&& advanced(d, p, fd, fp, 2)
    } else if opcode == 0xee {
        (if ssg { f == with_globals(o, SequencerGlobals { psg_noise: a as i32, ..g }) } else { f == o })
            && advanced(d, p, fd, fp, 1)
    } else if opcode == 0xed {
        (if ssg { f == with_channel(o, ChannelState { psg_pattern: a as i32, ..c }) } else { f == o })
            && advanced(d, p, fd, fp, 1)
    } else if opcode == 0xec {
        &&& f == (CommandState {
            channel: panned(c, profile, a),
            globals: if profile == CommandProfile::P86 {
                SequencerGlobals { p86_pan_flag: p86_pan(a).0, p86_pan_data: p86_pan(a).1, ..g }
            } else {
                g
            },
            ..o
        })
        &&& advanced(d, p, fd, fp, 1)
    } else if opcode == 0xeb {
        &&& f == (CommandState { writes: f.writes, ..o })
        &&& f.writes@ == o.writes@ + rhythm_key_writes(a & (g.rhythm_mask as u8), g.rhythm_data@)
        &&& advanced(d, p, fd, fp, 1)
    } else if opcode == 0xea {
        rhythm_voice_set(o, f, a / 32 - 1, rhythm_volume_data(a, g.rhythm_data@[a / 32 - 1])) && advanced(d, p, fd, fp, 1)
    } else if opcode == 0xe9 {
        rhythm_voice_set(o, f, a / 32 - 1, rhythm_pan_data(a, g.rhythm_data@[a / 32 - 1])) && advanced(d, p, fd, fp, 1)
    } else if opcode == 0xe8 {
        &&& f == (CommandState { writes: f.writes, globals: SequencerGlobals { rhythm_volume: a as i32, ..g }, ..o })
        &&& f.writes@ == o.writes@.push(RegisterWrite { address: 0x11, value: rhythm_output_spec(g.rhythm_volume_down, a as i32) })
        &&& advanced(d, p, fd, fp, 1)
    } else if opcode == 0xe7 {
        (if rhythm {
            f == o
        } else {
            f == with_channel(o, ChannelState { shift: vstd::wrapping::i32_specs::wrapping_add(c.shift, signed8(a) as i32), ..c })
        }) && advanced(d, p, fd, fp, 1)
    } else if opcode == 0xe6 {
        let volume = shifted_rhythm_volume(g.rhythm_volume, a);
        &&& f == (CommandState { writes: f.writes, globals: SequencerGlobals { rhythm_volume: volume, ..g }, ..o })
        &&& f.writes@ == o.writes@.push(RegisterWrite { address: 0x11, value: rhythm_output_spec(g.rhythm_volume_down, volume) })
        &&& advanced(d, p, fd, fp, 1)
    } else if opcode == 0xe5 {
        rhythm_voice_set(o, f, a - 1, shifted_voice_data(g.rhythm_data@[a - 1], b)) && advanced(d, p, fd, fp, 2)
    } else if opcode == 0xe4 {
        (if fm { f == with_channel(o, ChannelState { hldelay: a as i32, ..c }) } else { f == o }) && advanced(d, p, fd, fp, 1)
    } else if opcode == 0xe3 {
        f == with_channel(o, ChannelState { volume: volume_added(c.volume, a, profile), ..c }) && advanced(d, p, fd, fp, 1)
    } else if opcode == 0xe2 {
        f == with_channel(o, ChannelState { volume: if c.volume < a { 0 } else { (c.volume - a) as i32 }, ..c })
            && advanced(d, p, fd, fp, 1)
    } else if opcode == 0xe1 {
        (if fm { f == with_channel(o, ChannelState { hard_lfo_pan: a as i32, ..c }) } else { f == o })
            && advanced(d, p, fd, fp, 1)
    } else {
        (if fm {
            &&& f == (CommandState { writes: f.writes, globals: SequencerGlobals { port22h: a as i32, ..g }, ..o })
            &&& f.writes@ == o.writes@.push(RegisterWrite { address: 0x22, value: a })
        } else {
            f == o
        }) && advanced(d, p, fd, fp, 1)
    }
}


/// Runs a command with an opcode from 0xe0 to 0xff.
#[verifier::rlimit(100)]
#[verifier::spinoff_prover]
fn dispatch_high(opcode: u8, cursor: &mut PartCursor, state: &mut CommandState, profile: CommandProfile) -> (result: Result<(), CommandError>)
    requires
        old(state).wf(),
        opcode >= 0xe0,
    ensures
        final(state).channel.kind == old(state).channel.kind,
        final(state).wf(),
        result is Ok ==> high_command_done(opcode, profile, *old(state), *final(state), old(cursor).bytes(),
            old(cursor).position as int, final(cursor).bytes(), final(cursor).position as int),
        command_length(profile, opcode) > 0 && !old(cursor).has(command_length(profile, opcode)) ==> result is Err,
        command_length(profile, opcode) > 0 && !checks_operand(opcode) ==> (result is Ok <==> old(cursor).has(command_length(profile, opcode))),
        command_length(profile, opcode) == 0 ==> result is Ok,
        (command_length(profile, opcode) < 0 || checks_operand(opcode)) ==> (result is Ok <==> command_succeeds(opcode, profile,
            old(cursor).bytes(), old(cursor).position as int)),
        !(result matches Err(CommandError::UnknownOpcode { .. })),
        opcode != 0xf8 && opcode != 0xf9 ==> final(cursor).bytes() == old(cursor).bytes(),
{
    proof {
        reveal(high_command_done);
    }
    let rhythm = profile.is_rhythm();
    let fm = profile.is_fm();
    let ssg = profile.is_ssg();
    if opcode == 0xff {
        program_change(cursor, state)
    } else if opcode == 0xfe {
        state.channel.qdata = cursor.read_u8()? as i32;
        if !rhythm && !profile.is_pcm() {
            state.channel.qdat3 = 0;
        }
        Ok(())
    } else if opcode == 0xfd {
        state.channel.volume = cursor.read_u8()? as i32;
        Ok(())
    } else if opcode == 0xfc {
        tempo_change(cursor, &mut state.globals.tempo)
    } else if opcode == 0xfb {
        state.globals.tie_flag = state.globals.tie_flag | 1;
        Ok(())
    } else if opcode == 0xfa {
        state.channel.detune = cursor.read_i16_le()? as i32;
        Ok(())
    } else if opcode == 0xf9 {
        start_loop(cursor)
    } else if opcode == 0xf8 {
        end_loop(cursor, &mut state.channel)
    } else if opcode == 0xf7 {
        loop_exit(cursor, &mut state.channel)
    } else if opcode == 0xf6 {
        state.channel.part_loop = Some(cursor.position());
        Ok(())
    } else if opcode == 0xf5 {
        if rhythm {
            cursor.skip(1)
        } else {
            state.channel.shift = cursor.read_i8()? as i32;
            Ok(())
        }
    } else if opcode == 0xf4 {
        let volume = state.channel.volume;
        state.channel.volume = if fm {
            if volume + 4 < 127 { volume + 4 } else { 127 }
        } else if ssg || rhythm {
            if volume < 15 { volume + 1 } else { volume }
        } else if volume < 239 {
            volume + 16
        } else {
            255
        };
        Ok(())
    } else if opcode == 0xf3 {
        let volume = state.channel.volume;
        state.channel.volume = if fm {
            if volume - 4 > 0 { volume - 4 } else { 0 }
        } else if ssg || rhythm {
            if volume > 0 { volume - 1 } else { volume }
        } else if volume < 16 {
            0
        } else {
            volume - 16
        };
        Ok(())
    } else if opcode == 0xf2 {
        if rhythm {
            cursor.skip(4)
        } else {
            set_lfo(cursor, &mut state.channel)
        }
    } else if opcode == 0xf1 {
        if rhythm {
            state.channel.pdr_switch = cursor.read_u8()? as i32;
            Ok(())
        } else {
            set_lfo_switch(cursor, &mut state.channel)
        }
    } else if opcode == 0xf0 {
        if fm || rhythm {
            cursor.skip(4)
        } else {
            set_psg_envelope(cursor, &mut state.channel)
        }
    } else if opcode == 0xef {
        raw_register(cursor, state, profile)
    } else if opcode == 0xee {
        if ssg {
            state.globals.psg_noise = cursor.read_u8()? as i32;
            Ok(())
        } else {
            cursor.skip(1)
        }
    } else if opcode == 0xed {
        if ssg {
            state.channel.psg_pattern = cursor.read_u8()? as i32;
            Ok(())
        } else {
            cursor.skip(1)
        }
    } else if opcode == 0xec {
        pan_set(cursor, state, profile)
    } else if opcode == 0xeb {
        rhythm_key(cursor, state)
    } else if opcode == 0xea {
        rhythm_voice_volume(cursor, state)
    } else if opcode == 0xe9 {
        rhythm_voice_pan(cursor, state)
    } else if opcode == 0xe8 {
        rhythm_master_volume(cursor, state)
    } else if opcode == 0xe7 {
        if rhythm {
            cursor.skip(1)
        } else {
            let amount = cursor.read_i8()? as i32;
            state.channel.shift = state.channel.shift.wrapping_add(amount);
            Ok(())
        }
    } else if opcode == 0xe6 {
        rhythm_master_volume_shift(cursor, state)
    } else if opcode == 0xe5 {
        rhythm_voice_volume_shift(cursor, state)
    } else if opcode == 0xe4 {
        if fm {
            state.channel.hldelay = cursor.read_u8()? as i32;
            Ok(())
        } else {
            cursor.skip(1)
        }
    } else if opcode == 0xe3 {
        volume_add(cursor, state, profile)
    } else if opcode == 0xe2 {
        volume_subtract(cursor, state, profile)
    } else if opcode == 0xe1 {
        if fm {
            state.channel.hard_lfo_pan = cursor.read_u8()? as i32;
            Ok(())
        } else {
            cursor.skip(1)
        }
    } else if fm {
        let value = cursor.read_u8()?;
        state.globals.port22h = value as i32;
        state.write_register(0x22, value);
        Ok(())
    } else {
        cursor.skip(1)
    }
}


/// What `sd`/`sdd` did: the part's slot detunes (and, on the shared FM3
/// channel, the shared ones and their flag) moved or set.
pub open spec fn slot_detune_done(o: CommandState, f: CommandState, mask: u8, value: i32, relative: bool) -> bool {
    &&& f.channel.slot_detune@ == slots_detuned(o.channel.slot_detune@, mask, relative, value)
    &&& is_fm3(o) ==> f.globals.fm3_slot_detune@ == slots_detuned(o.globals.fm3_slot_detune@, mask, relative, value)
        && f.globals.fm3_slot_detune_flag == (if any_detune(f.globals.fm3_slot_detune@) { 1i32 } else { 0i32 })
    &&& f == (CommandState {
        channel: ChannelState { slot_detune: f.channel.slot_detune, ..o.channel },
        globals: if is_fm3(o) {
            SequencerGlobals {
                fm3_slot_detune: f.globals.fm3_slot_detune,
                fm3_slot_detune_flag: f.globals.fm3_slot_detune_flag,
                ..o.globals
            }
        } else {
            o.globals
        },
        ..o
    })
}

/// What a command with an opcode from 0xc0 to 0xdf did when it succeeded.
#[verifier::opaque]
pub open spec fn middle_command_done(
    opcode: u8,
    profile: CommandProfile,
    o: CommandState,
    f: CommandState,
    d: Seq<u8>,
    p: int,
    fd: Seq<u8>,
    fp: int,
) -> bool {
    let c = o.channel;
    let g = o.globals;
    let a = d[p];
    let b = d[p + 1];
    let rhythm = profile == CommandProfile::Rhythm;
    let fm = profile == CommandProfile::Fm;
    let ssg = profile == CommandProfile::Ssg;
    if opcode == 0xdf {
        f == with_globals(o, SequencerGlobals { measure_length: a as u32, ..g }) && advanced(d, p, fd, fp, 1)
    } else if opcode == 0xde {
        &&& f == (CommandState {
            channel: ChannelState { vol_push: volume_one_up_value(c.volume, a, profile), ..c },
            globals: SequencerGlobals { volume_push_flag: 1, ..g },
            ..o
        })
        &&& advanced(d, p, fd, fp, 1)
    } else if opcode == 0xdd {
        &&& f == (CommandState {
            channel: ChannelState { vol_push: volume_one_down_value(c.volume, a), ..c },
            globals: SequencerGlobals { volume_push_flag: 1, ..g },
            ..o
        })
        &&& advanced(d, p, fd, fp, 1)
    } else if opcode == 0xdc {
        f == with_globals(o, SequencerGlobals { status: a as i32, ..g }) && advanced(d, p, fd, fp, 1)
    } else if opcode == 0xdb {
        f == with_globals(o, SequencerGlobals { status: vstd::wrapping::i32_specs::wrapping_add(g.status, a as i32), ..g })
            && advanced(d, p, fd, fp, 1)
    } else if opcode == 0xda {
        if !lfo_profile(profile) {
            f == o && advanced(d, p, fd, fp, 1)
        } else {
            let slur = p + 4 <= d.len() && d[p + 3] == 0xc1;
            &&& f == with_channel(o, porta_set(c, profile, a, b, d[p + 2], slur))
            &&& fd == d
            &&& fp == p + (if slur { 4int } else { 3int })
        }
    } else if opcode == 0xd9 || opcode == 0xd8 || opcode == 0xd7 || opcode == 0xd1 {
        f == o && advanced(d, p, fd, fp, 1)
    } else if opcode == 0xd6 {
        (if rhythm {
            f == o
        } else {
            f == with_channel(o, ChannelState { mdspd: a as i32, mdspd2: a as i32, mdepth: signed8(b) as i32, ..c })
        }) && advanced(d, p, fd, fp, 2)
    } else if opcode == 0xd5 {
        f == with_channel(o, ChannelState { detune: vstd::wrapping::i32_specs::wrapping_add(c.detune, signed16(a, b) as i32), ..c })
            && advanced(d, p, fd, fp, 2)
    } else if opcode == 0xd4 || opcode == 0xd3 {
        let channel = ChannelState { effect_value: a as i32, ..c };
        (if opcode == 0xd4 && c.part_mask == 0 {
            &&& f == (CommandState { channel, effect_requests: f.effect_requests, ..o })
            &&& f.effect_requests@ == o.effect_requests@.push(effect_request_for(a))
        } else {
            f == with_channel(o, channel)
        }) && advanced(d, p, fd, fp, 1)
    } else if opcode == 0xd2 {
        f == with_globals(o, SequencerGlobals { fadeout_flag: true, fadeout_speed: a as i32, ..g }) && advanced(d, p, fd, fp, 1)
    } else if opcode == 0xd0 {
        (if ssg {
            f == with_globals(o, SequencerGlobals { psg_noise: clamp_spec(g.psg_noise + signed8(a), 0, 31) as i32, ..g })
        } else {
            f == o
        }) && advanced(d, p, fd, fp, 1)
    } else if opcode == 0xcf {
        (if fm { f == with_channel(o, slot_masked(o, a)) } else { f == o }) && advanced(d, p, fd, fp, 1)
    } else if opcode == 0xce {
        (if is_pcm_profile(profile) {
            let start = signed16(a, b) as i32;
            let end = signed16(d[p + 2], d[p + 3]) as i32;
            let release = unsigned16(d[p + 4], d[p + 5]) as i32;
            f == (CommandState {
                channel: ChannelState { repeat_start: start, repeat_end: end, release_start: release, ..c },
                globals: SequencerGlobals { pcm_repeat_start: start, pcm_repeat_end: end, pcm_release: release, ..g },
                ..o
            })
        } else {
            f == o
        }) && advanced(d, p, fd, fp, 6)
    } else if opcode == 0xcd {
        (if rhythm || fm {
            f == o
        } else {
            f == with_channel(o, extended_envelope_set(c, a, b, d[p + 2], d[p + 3], d[p + 4]))
        }) && advanced(d, p, fd, fp, 5)
    } else if opcode == 0xcc {
        (if ssg {
            f == with_channel(o, ChannelState { extendmode: (((c.extendmode as u8) & 0xfe) | (a & 1)) as i32, ..c })
        } else {
            f == o
        }) && advanced(d, p, fd, fp, 1)
    } else if opcode == 0xcb {
        (if rhythm { f == o } else { f == with_channel(o, ChannelState { lfo_wave: a as i32, ..c }) }) && advanced(d, p, fd, fp, 1)
    } else if opcode == 0xca {
        (if rhythm { f == o } else { f == with_channel(o, ChannelState { extendmode: extend_bit_set(c.extendmode, 1, a), ..c }) })
            && advanced(d, p, fd, fp, 1)
    } else if opcode == 0xc9 {
        (if rhythm || fm {
            f == o
        } else {
            f == with_channel(o, ChannelState { extendmode: extend_bit_set(c.extendmode, 2, a), ..c })
        }) && advanced(d, p, fd, fp, 1)
    } else if opcode == 0xc8 || opcode == 0xc7 {
        (if fm { slot_detune_done(o, f, a, signed16(b, d[p + 2]) as i32, opcode == 0xc7) } else { f == o })
            && advanced(d, p, fd, fp, 3)
    } else if opcode == 0xc6 {
        (if fm {
            &&& f == with_channel(o, ChannelState { fm3_part_offsets: f.channel.fm3_part_offsets, ..c })
            &&& f.channel.fm3_part_offsets@ == seq![
                unsigned16(a, b) as u16,
                unsigned16(d[p + 2], d[p + 3]) as u16,
                unsigned16(d[p + 4], d[p + 5]) as u16,
            ]
        } else {
            f == o
        }) && advanced(d, p, fd, fp, 6)
    } else if opcode == 0xc5 {
        (if fm { f == with_channel(o, ChannelState { volume_mask: volume_mask_value(c.carrier, a), ..c }) } else { f == o })
            && advanced(d, p, fd, fp, 1)
    } else if opcode == 0xc4 {
        (if rhythm { f == o } else { f == with_channel(o, ChannelState { qdatb: a as i32, ..c }) }) && advanced(d, p, fd, fp, 1)
    } else if opcode == 0xc3 {
        f == with_channel(o, extended_panned(c, profile, a, b)) && advanced(d, p, fd, fp, 2)
    } else if opcode == 0xc2 {
        (if rhythm {
            f == o
        } else {
            f == with_channel(o, lfo_reset(ChannelState { delay: a as i32, secondary_delay: a as i32, ..c }))
        }) && advanced(d, p, fd, fp, 1)
    } else if opcode == 0xc1 {
        f == o && advanced(d, p, fd, fp, 0)
    } else if a >= 2 {
        match special_mask_globals(g, a, b) {
            Some(next) => f == with_globals(o, next) && advanced(d, p, fd, fp, 2),
            None => f == o && fd == d.update(p + 1, 0x80) && fp == p + 1,
        }
    } else {
        f == with_channel(o, ChannelState { part_mask: user_masked(c.part_mask, a), ..c }) && advanced(d, p, fd, fp, 1)
    }
}

/// Runs a command with an opcode from 0xc0 to 0xdf.
#[verifier::rlimit(100)]
#[verifier::spinoff_prover]
fn dispatch_middle(opcode: u8, cursor: &mut PartCursor, state: &mut CommandState, profile: CommandProfile) -> (result: Result<(), CommandError>)
    requires
        old(state).wf(),
        0xc0 <= opcode < 0xe0,
    ensures
        final(state).channel.kind == old(state).channel.kind,
        final(state).wf(),
        result is Ok ==> middle_command_done(opcode, profile, *old(state), *final(state), old(cursor).bytes(),
            old(cursor).position as int, final(cursor).bytes(), final(cursor).position as int),
        command_length(profile, opcode) > 0 && !old(cursor).has(command_length(profile, opcode)) ==> result is Err,
        command_length(profile, opcode) > 0 && !checks_operand(opcode) ==> (result is Ok <==> old(cursor).has(command_length(profile, opcode))),
        command_length(profile, opcode) == 0 ==> result is Ok,
        (command_length(profile, opcode) < 0 || checks_operand(opcode)) ==> (result is Ok <==> command_succeeds(opcode, profile,
            old(cursor).bytes(), old(cursor).position as int)),
        !(result matches Err(CommandError::UnknownOpcode { .. })),
        opcode != 0xc0 ==> final(cursor).bytes() == old(cursor).bytes(),
{
    proof {
        reveal(middle_command_done);
    }
    let rhythm = profile.is_rhythm();
    let fm = profile.is_fm();
    let ssg = profile.is_ssg();
    if opcode == 0xdf {
        state.globals.measure_length = cursor.read_u8()? as u32;
        Ok(())
    } else if opcode == 0xde {
        volume_one_up(cursor, state, profile)
    } else if opcode == 0xdd {
        volume_one_down(cursor, state, profile)
    } else if opcode == 0xdc {
        state.globals.status = cursor.read_u8()? as i32;
        Ok(())
    } else if opcode == 0xdb {
        let value = cursor.read_u8()? as i32;
        state.globals.status = state.globals.status.wrapping_add(value);
        Ok(())
    } else if opcode == 0xda {
        portamento(cursor, state, profile)
    } else if opcode == 0xd9 || opcode == 0xd8 || opcode == 0xd7 || opcode == 0xd1 {
        cursor.skip(1)
    } else if opcode == 0xd6 {
        if rhythm {
            cursor.skip(2)
        } else {
            let speed = cursor.read_u8()?;
            state.channel.mdspd = speed as i32;
            state.channel.mdspd2 = speed as i32;
            state.channel.mdepth = cursor.read_i8()? as i32;
            Ok(())
        }
    } else if opcode == 0xd5 {
        let amount = cursor.read_i16_le()? as i32;
        state.channel.detune = state.channel.detune.wrapping_add(amount);
        Ok(())
    } else if opcode == 0xd4 || opcode == 0xd3 {
        let value = cursor.read_u8()?;
        state.channel.effect_value = value as i32;
        if opcode == 0xd4 && state.channel.part_mask == 0 {
            if value == 0 {
                state.effect_requests.push(EffectRequest::Stop);
            } else {
                state.effect_requests.push(EffectRequest::Start { index: value & 0x7f, correction: 1 });
            }
        }
        Ok(())
    } else if opcode == 0xd2 {
        state.globals.fadeout_flag = true;
        state.globals.fadeout_speed = cursor.read_u8()? as i32;
        Ok(())
    } else if opcode == 0xd0 {
        if ssg {
            let amount = cursor.read_i8()? as i32;
            let noise = state.globals.psg_noise + amount;
            state.globals.psg_noise = if noise < 0 { 0 } else if noise > 31 { 31 } else { noise };
            Ok(())
        } else {
            cursor.skip(1)
        }
    } else {
        dispatch_middle_low(opcode, cursor, state, profile)
    }
}

/// Runs a command with an opcode from 0xc0 to 0xcf.
#[verifier::rlimit(100)]
#[verifier::spinoff_prover]
fn dispatch_middle_low(opcode: u8, cursor: &mut PartCursor, state: &mut CommandState, profile: CommandProfile) -> (result: Result<(), CommandError>)
    requires
        old(state).wf(),
        0xc0 <= opcode < 0xd0,
    ensures
        final(state).channel.kind == old(state).channel.kind,
        final(state).wf(),
        result is Ok ==> middle_command_done(opcode, profile, *old(state), *final(state), old(cursor).bytes(),
            old(cursor).position as int, final(cursor).bytes(), final(cursor).position as int),
        command_length(profile, opcode) > 0 && !old(cursor).has(command_length(profile, opcode)) ==> result is Err,
        command_length(profile, opcode) > 0 && !checks_operand(opcode) ==> (result is Ok <==> old(cursor).has(command_length(profile, opcode))),
        command_length(profile, opcode) == 0 ==> result is Ok,
        (command_length(profile, opcode) < 0 || checks_operand(opcode)) ==> (result is Ok <==> command_succeeds(opcode, profile,
            old(cursor).bytes(), old(cursor).position as int)),
        !(result matches Err(CommandError::UnknownOpcode { .. })),
        opcode != 0xc0 ==> final(cursor).bytes() == old(cursor).bytes(),
{
    proof {
        reveal(middle_command_done);
    }
    let rhythm = profile.is_rhythm();
    let fm = profile.is_fm();
    let ssg = profile.is_ssg();
    if opcode == 0xcf {
        if fm { slot_mask(cursor, state) } else { cursor.skip(1) }
    } else if opcode == 0xce {
        if profile.is_pcm() { repeat_set(cursor, state) } else { cursor.skip(6) }
    } else if opcode == 0xcd {
        if rhythm || fm { cursor.skip(5) } else { set_extended_psg_envelope(cursor, &mut state.channel) }
    } else if opcode == 0xcc {
        if ssg {
            let value = cursor.read_u8()?;
            state.channel.extendmode = (((state.channel.extendmode as u8) & 0xfe) | (value & 1)) as i32;
            Ok(())
        } else {
            cursor.skip(1)
        }
    } else if opcode == 0xcb {
        if rhythm {
            cursor.skip(1)
        } else {
            state.channel.lfo_wave = cursor.read_u8()? as i32;
            Ok(())
        }
    } else if opcode == 0xca {
        if rhythm { cursor.skip(1) } else { set_extend_bit(cursor, &mut state.channel, 1) }
    } else if opcode == 0xc9 {
        if rhythm || fm { cursor.skip(1) } else { set_extend_bit(cursor, &mut state.channel, 2) }
    } else if opcode == 0xc8 || opcode == 0xc7 {
        if fm { slot_detune(cursor, state, opcode == 0xc7) } else { cursor.skip(3) }
    } else if opcode == 0xc6 {
        if fm {
            let first = cursor.read_u16_le()?;
            state.channel.fm3_part_offsets[0] = first;
            let second = cursor.read_u16_le()?;
            state.channel.fm3_part_offsets[1] = second;
            let third = cursor.read_u16_le()?;
            state.channel.fm3_part_offsets[2] = third;
            assert(state.channel.fm3_part_offsets@ =~= seq![first, second, third]);
            Ok(())
        } else {
            cursor.skip(6)
        }
    } else if opcode == 0xc5 {
        if fm { volume_mask(cursor, &mut state.channel, false) } else { cursor.skip(1) }
    } else if opcode == 0xc4 {
        if rhythm {
            cursor.skip(1)
        } else {
            state.channel.qdatb = cursor.read_u8()? as i32;
            Ok(())
        }
    } else if opcode == 0xc3 {
        extended_pan(cursor, state, profile)
    } else if opcode == 0xc2 {
        if rhythm {
            cursor.skip(1)
        } else {
            let value = cursor.read_u8()?;
            state.channel.delay = value as i32;
            state.channel.secondary_delay = value as i32;
            state.channel.reset_lfo_main();
            Ok(())
        }
    } else if opcode == 0xc1 {
        Ok(())
    } else {
        part_mask(cursor, state, profile)
    }
}


/// What a command with an opcode from 0xb1 to 0xbf did when it succeeded.
#[verifier::opaque]
pub open spec fn low_command_done(
    opcode: u8,
    profile: CommandProfile,
    o: CommandState,
    f: CommandState,
    d: Seq<u8>,
    p: int,
    fd: Seq<u8>,
    fp: int,
) -> bool {
    let c = o.channel;
    let g = o.globals;
    let a = d[p];
    let b = d[p + 1];
    let rhythm = profile == CommandProfile::Rhythm;
    let fm = profile == CommandProfile::Fm;
    let lfo = lfo_profile(profile);
    let swapped = lfo_swapped(c);
    if opcode == 0xbf {
        (if lfo { f == with_channel(o, lfo_swapped(lfo_set(swapped, a, b, d[p + 2], d[p + 3]))) } else { f == o })
            && advanced(d, p, fd, fp, 4)
    } else if opcode == 0xbe {
        &&& f == with_channel(o, if lfo {
            lfo_swapped(lfo_reset(lfo_swapped(ChannelState { lfoswi: secondary_switch(c.lfoswi, a), ..c })))
        } else {
            c
        })
        &&& advanced(d, p, fd, fp, 1)
    } else if opcode == 0xbd {
        (if lfo {
            f == with_channel(o, lfo_swapped(ChannelState { mdspd: a as i32, mdspd2: a as i32, mdepth: signed8(b) as i32, ..swapped }))
        } else {
            f == o
        }) && advanced(d, p, fd, fp, 2)
    } else if opcode == 0xbc {
        (if lfo { f == with_channel(o, lfo_swapped(ChannelState { lfo_wave: a as i32, ..swapped })) } else { f == o })
            && advanced(d, p, fd, fp, 1)
    } else if opcode == 0xbb {
        (if lfo {
            f == with_channel(o, lfo_swapped(ChannelState { extendmode: extend_bit_set(swapped.extendmode, 1, a), ..swapped }))
        } else {
            f == o
        }) && advanced(d, p, fd, fp, 1)
    } else if opcode == 0xba {
        (if fm || profile == CommandProfile::Adpcm || profile == CommandProfile::Ppz8 {
            f == with_channel(o, ChannelState { secondary_volume_mask: volume_mask_value(c.carrier, a), ..c })
        } else {
            f == o
        }) && advanced(d, p, fd, fp, 1)
    } else if opcode == 0xb9 {
        f == with_channel(o, if lfo { secondary_delay_set(c, profile, a) } else { c }) && advanced(d, p, fd, fp, 1)
    } else if opcode == 0xb8 {
        (if fm {
            let selected = level_selector(a, c.slot_mask);
            let levels = slot_levels(c.slot_tl@, selected, a < 128, b);
            &&& f.channel.slot_tl@ == levels
            &&& f.writes@ == o.writes@ + (if c.part_mask == 0 {
                level_writes(selected, g.fm_select + 0x40 + o.fm_channel, levels)
            } else {
                Seq::<RegisterWrite>::empty()
            })
            &&& f == (CommandState { channel: ChannelState { slot_tl: f.channel.slot_tl, ..c }, writes: f.writes, ..o })
        } else {
            f == o
        }) && advanced(d, p, fd, fp, 2)
    } else if opcode == 0xb7 {
        f == with_channel(o, mdepth_counted(c, a)) && advanced(d, p, fd, fp, 1)
    } else if opcode == 0xb6 {
        (if fm {
            let fm3 = is_fm3(o);
            let current = if fm3 { g.fm3_alg_fb } else { c.algorithm_feedback };
            let value = feedback_value(a, current);
            if fm3 && c.slot_mask & 0x10 == 0 {
                f == o
            } else {
                &&& f.writes@ == o.writes@.push(RegisterWrite { address: (g.fm_select + 0xb0 + o.fm_channel) as u16, value })
                &&& f == (CommandState {
                    channel: ChannelState { algorithm_feedback: value as i32, ..c },
                    globals: SequencerGlobals { fm3_alg_fb: if fm3 { value as i32 } else { g.fm3_alg_fb }, ..g },
                    writes: f.writes,
                    ..o
                })
            }
        } else {
            f == o
        }) && advanced(d, p, fd, fp, 1)
    } else if opcode == 0xb5 {
        (if fm {
            f == with_channel(o, ChannelState { sdelay_mask: ((15 - a % 16) * 16) as i32, sdelay: b as i32, sdelay_counter: b as i32, ..c })
        } else {
            f == o
        }) && advanced(d, p, fd, fp, 2)
    } else if opcode == 0xb4 {
        (if is_pcm_profile(profile) && profile != CommandProfile::Ppz8 {
            &&& f == with_channel(o, ChannelState { external_part_offsets: f.channel.external_part_offsets, ..c })
            &&& f.channel.external_part_offsets@ == Seq::new(8, |i: int| unsigned16(d[p + 2 * i], d[p + 2 * i + 1]) as u16)
        } else {
            f == o
        }) && advanced(d, p, fd, fp, 16)
    } else if opcode == 0xb3 {
        (if rhythm { f == o } else { f == with_channel(o, ChannelState { qdat2: a as i32, ..c }) }) && advanced(d, p, fd, fp, 1)
    } else if opcode == 0xb2 {
        (if rhythm { f == o } else { f == with_channel(o, ChannelState { shift_def: signed8(a) as i32, ..c }) })
            && advanced(d, p, fd, fp, 1)
    } else {
        (if rhythm { f == o } else { f == with_channel(o, ChannelState { qdat3: a as i32, ..c }) }) && advanced(d, p, fd, fp, 1)
    }
}

fn read_external_offsets(cursor: &mut PartCursor, offsets: &mut [u16; 8]) -> (result: Result<(), CommandError>)
    ensures
        final(cursor).bytes() == old(cursor).bytes(),
        result is Ok <==> old(cursor).has(16),
        result matches Err(e) ==> e is Truncated,
        result is Ok ==> final(cursor).position == old(cursor).position + 16
            && final(offsets)@ == Seq::new(8, |i: int| unsigned16(old(cursor).at(2 * i), old(cursor).at(2 * i + 1)) as u16),
{
    let ghost start = cursor.position as int;
    let mut index: usize = 0;
    while index < 8
        invariant
            index <= 8,
            offsets@.len() == 8,
            cursor.bytes() == old(cursor).bytes(),
            cursor.position == start + 2 * index,
            start == old(cursor).position,
            index > 0 ==> start + 2 * index <= cursor.bytes().len(),
            forall|i: int| 0 <= i < index ==> offsets@[i] == unsigned16(cursor.bytes()[start + 2 * i], cursor.bytes()[start + 2 * i + 1]) as u16,
        decreases 8 - index,
    {
        let value = cursor.read_u16_le()?;
        offsets[index] = value;
        index = index + 1;
    }
    assert(offsets@ =~= Seq::new(8, |i: int| unsigned16(old(cursor).at(2 * i), old(cursor).at(2 * i + 1)) as u16));
    Ok(())
}

/// Runs a command with an opcode from 0xb1 to 0xbf.
#[verifier::rlimit(100)]
#[verifier::spinoff_prover]
fn dispatch_low(opcode: u8, cursor: &mut PartCursor, state: &mut CommandState, profile: CommandProfile) -> (result: Result<(), CommandError>)
    requires
        old(state).wf(),
        0xb1 <= opcode < 0xc0,
    ensures
        final(state).channel.kind == old(state).channel.kind,
        final(state).wf(),
        result is Ok ==> low_command_done(opcode, profile, *old(state), *final(state), old(cursor).bytes(),
            old(cursor).position as int, final(cursor).bytes(), final(cursor).position as int),
        command_length(profile, opcode) > 0 && !old(cursor).has(command_length(profile, opcode)) ==> result is Err,
        command_length(profile, opcode) > 0 ==> (result is Ok <==> old(cursor).has(command_length(profile, opcode))),
        !(result matches Err(CommandError::UnknownOpcode { .. })),
        final(cursor).bytes() == old(cursor).bytes(),
{
    proof {
        reveal(low_command_done);
    }
    let ghost o = *state;
    let ghost d = cursor.bytes();
    let ghost p = cursor.position as int;
    let rhythm = profile.is_rhythm();
    let fm = profile.is_fm();
    let lfo = profile.supports_lfo();
    if opcode == 0xbf {
        if lfo {
            state.channel.swap_lfo();
            set_lfo(cursor, &mut state.channel)?;
            state.channel.swap_lfo();
            Ok(())
        } else {
            cursor.skip(4)
        }
    } else if opcode == 0xbe {
        switch_secondary_lfo(cursor, state, profile)
    } else if opcode == 0xbd {
        if lfo {
            state.channel.swap_lfo();
            let speed = cursor.read_u8()?;
            state.channel.mdspd = speed as i32;
            state.channel.mdspd2 = speed as i32;
            state.channel.mdepth = cursor.read_i8()? as i32;
            state.channel.swap_lfo();
            Ok(())
        } else {
            cursor.skip(2)
        }
    } else if opcode == 0xbc {
        if lfo {
            state.channel.swap_lfo();
            state.channel.lfo_wave = cursor.read_u8()? as i32;
            state.channel.swap_lfo();
            Ok(())
        } else {
            cursor.skip(1)
        }
    } else if opcode == 0xbb {
        if lfo {
            state.channel.swap_lfo();
            set_extend_bit(cursor, &mut state.channel, 1)?;
            state.channel.swap_lfo();
            Ok(())
        } else {
            cursor.skip(1)
        }
    } else if opcode == 0xba {
        if fm || match profile { CommandProfile::Adpcm | CommandProfile::Ppz8 => true, _ => false } {
            volume_mask(cursor, &mut state.channel, true)
        } else {
            cursor.skip(1)
        }
    } else if opcode == 0xb9 {
        secondary_lfo_delay(cursor, state, profile)
    } else if opcode == 0xb8 {
        if fm { total_level_set(cursor, state) } else { cursor.skip(2) }
    } else if opcode == 0xb7 {
        mdepth_count(cursor, &mut state.channel)
    } else if opcode == 0xb6 {
        if fm { feedback_set(cursor, state) } else { cursor.skip(1) }
    } else if opcode == 0xb5 {
        if fm {
            let mask = cursor.read_u8()?;
            state.channel.sdelay_mask = ((15 - mask % 16) * 16) as i32;
            state.channel.sdelay = cursor.read_u8()? as i32;
            state.channel.sdelay_counter = state.channel.sdelay;
            Ok(())
        } else {
            cursor.skip(2)
        }
    } else if opcode == 0xb4 {
        if profile.is_pcm() && match profile { CommandProfile::Ppz8 => false, _ => true } {
            let r = read_external_offsets(cursor, &mut state.channel.external_part_offsets);
            proof {
                if r is Ok {
                    assert(state.channel.external_part_offsets@ =~= Seq::new(8, |i: int| unsigned16(d[p + 2 * i], d[p + 2 * i + 1]) as u16));
                }
            }
            r
        } else {
            cursor.skip(16)
        }
    } else if opcode == 0xb3 {
        if rhythm {
            cursor.skip(1)
        } else {
            state.channel.qdat2 = cursor.read_u8()? as i32;
            Ok(())
        }
    } else if opcode == 0xb2 {
        if rhythm {
            cursor.skip(1)
        } else {
            state.channel.shift_def = cursor.read_i8()? as i32;
            Ok(())
        }
    } else if rhythm {
        cursor.skip(1)
    } else {
        state.channel.qdat3 = cursor.read_u8()? as i32;
        Ok(())
    }
}

/// What a command did when it succeeded, by opcode range.
pub open spec fn command_done(
    opcode: u8,
    profile: CommandProfile,
    o: CommandState,
    f: CommandState,
    d: Seq<u8>,
    p: int,
    fd: Seq<u8>,
    fp: int,
) -> bool {
    if opcode >= 0xe0 {
        high_command_done(opcode, profile, o, f, d, p, fd, fp)
    } else if opcode >= 0xc0 {
        middle_command_done(opcode, profile, o, f, d, p, fd, fp)
    } else {
        low_command_done(opcode, profile, o, f, d, p, fd, fp)
    }
}

/// When a command whose length depends on its operands, or whose operand
/// is checked, succeeds: its operands are all there and name what they
/// must (a loop counter, a jump target, a rhythm voice, a nonzero speed).
pub open spec fn command_succeeds(opcode: u8, profile: CommandProfile, d: Seq<u8>, p: int) -> bool {
    if opcode == 0xfc {
        p + 1 <= d.len() && (d[p] <= 250 || p + 2 <= d.len())
    } else if opcode == 0xf9 {
        p + 2 <= d.len() && unsigned16(d[p], d[p + 1]) + 1 < d.len()
    } else if opcode == 0xf8 {
        let count = d[p];
        let bumped = d.update(p + 1, vstd::wrapping::u8_specs::wrapping_add(d[p + 1], 1));
        let data = if count != 0 { bumped } else { d };
        p + 4 <= d.len() && ((count != 0 && vstd::wrapping::u8_specs::wrapping_add(d[p + 1], 1) == count)
            || loop_target(data, p + 2) <= data.len())
    } else if opcode == 0xf7 {
        let pair = unsigned16(d[p], d[p + 1]);
        p + 2 <= d.len() && pair + 1 < d.len() && (d[pair] - 1 == d[pair + 1] ==> pair + 4 <= d.len())
    } else if opcode == 0xc0 {
        p + 1 <= d.len() && (d[p] >= 2 ==> p + 2 <= d.len())
    } else if opcode == 0xda {
        if lfo_profile(profile) { p + 3 <= d.len() && d[p + 2] != 0 } else { p + 1 <= d.len() }
    } else if opcode == 0xea || opcode == 0xe9 {
        p + 1 <= d.len() && 1 <= d[p] / 32 <= 6
    } else if opcode == 0xe5 {
        p + 2 <= d.len() && 1 <= d[p] <= 6
    } else {
        true
    }
}

/// The contract of running one command (its opcode already read): `o`,
/// `d`, `p` before, `f`, `fd`, `fp` after. Opcodes below 0xb1 are unknown
/// and change nothing; a known command either fails for a short stream (or
/// one of the operand checks) or has its documented effect, consuming its
/// documented operand bytes.
pub open spec fn dispatched(
    opcode: u8,
    profile: CommandProfile,
    o: CommandState,
    f: CommandState,
    d: Seq<u8>,
    p: int,
    fd: Seq<u8>,
    fp: int,
    result: Result<(), CommandError>,
) -> bool {
    let n = command_length(profile, opcode);
    &&& opcode < 0xb1 ==> result == Err::<(), CommandError>(CommandError::UnknownOpcode { opcode }) && f == o && fd == d && fp == p
    &&& opcode >= 0xb1 ==> !(result matches Err(CommandError::UnknownOpcode { .. }))
    &&& opcode >= 0xb1 && result is Ok ==> command_done(opcode, profile, o, f, d, p, fd, fp)
    &&& n > 0 && !(p + n <= d.len()) ==> result is Err
    &&& n > 0 && !checks_operand(opcode) ==> (result is Ok <==> p + n <= d.len())
    &&& n == 0 ==> result is Ok
    &&& opcode >= 0xb1 && (n < 0 || checks_operand(opcode)) ==> (result is Ok <==> command_succeeds(opcode, profile, d, p))
    &&& opcode != 0xf8 && opcode != 0xf9 && opcode != 0xc0 ==> fd == d
}

/// Runs one command (its opcode already read) on a part of the given sound
/// source.
pub fn dispatch_common(opcode: u8, cursor: &mut PartCursor, state: &mut CommandState, profile: CommandProfile) -> (result: Result<(), CommandError>)
    requires
        old(state).wf(),
    ensures
        final(state).channel.kind == old(state).channel.kind,
        final(state).wf(),
        dispatched(opcode, profile, *old(state), *final(state), old(cursor).bytes(), old(cursor).position as int,
            final(cursor).bytes(), final(cursor).position as int, result),
{
    if opcode >= 0xe0 {
        dispatch_high(opcode, cursor, state, profile)
    } else if opcode >= 0xc0 {
        dispatch_middle(opcode, cursor, state, profile)
    } else if opcode >= 0xb1 {
        dispatch_low(opcode, cursor, state, profile)
    } else {
        Err(CommandError::UnknownOpcode { opcode })
    }
}



/// The command set a part's sound source uses.
pub open spec fn profile_of(kind: ChannelKind) -> CommandProfile {
    match kind {
        ChannelKind::Fm => CommandProfile::Fm,
        ChannelKind::Ssg => CommandProfile::Ssg,
        ChannelKind::Rhythm => CommandProfile::Rhythm,
        ChannelKind::Adpcm => CommandProfile::Adpcm,
        ChannelKind::P86 => CommandProfile::P86,
        ChannelKind::Ppz8 => CommandProfile::Ppz8,
    }
}

/// Runs a command on an FM part.
pub fn dispatch_fm(opcode: u8, cursor: &mut PartCursor, state: &mut CommandState) -> (result: Result<(), CommandError>)
    requires
        old(state).wf(),
    ensures
        final(state).channel.kind == old(state).channel.kind,
        final(state).wf(),
        dispatched(opcode, CommandProfile::Fm, *old(state), *final(state), old(cursor).bytes(), old(cursor).position as int,
            final(cursor).bytes(), final(cursor).position as int, result),
{
    dispatch_common(opcode, cursor, state, CommandProfile::Fm)
}

/// Runs a command on an SSG part.
pub fn dispatch_ssg(opcode: u8, cursor: &mut PartCursor, state: &mut CommandState) -> (result: Result<(), CommandError>)
    requires
        old(state).wf(),
    ensures
        final(state).channel.kind == old(state).channel.kind,
        final(state).wf(),
        dispatched(opcode, CommandProfile::Ssg, *old(state), *final(state), old(cursor).bytes(), old(cursor).position as int,
            final(cursor).bytes(), final(cursor).position as int, result),
{
    dispatch_common(opcode, cursor, state, CommandProfile::Ssg)
}

/// Runs a command on the rhythm part.
pub fn dispatch_rhythm(opcode: u8, cursor: &mut PartCursor, state: &mut CommandState) -> (result: Result<(), CommandError>)
    requires
        old(state).wf(),
    ensures
        final(state).channel.kind == old(state).channel.kind,
        final(state).wf(),
        dispatched(opcode, CommandProfile::Rhythm, *old(state), *final(state), old(cursor).bytes(), old(cursor).position as int,
            final(cursor).bytes(), final(cursor).position as int, result),
{
    dispatch_common(opcode, cursor, state, CommandProfile::Rhythm)
}

/// Runs a command on the ADPCM part.
pub fn dispatch_adpcm(opcode: u8, cursor: &mut PartCursor, state: &mut CommandState) -> (result: Result<(), CommandError>)
    requires
        old(state).wf(),
    ensures
        final(state).channel.kind == old(state).channel.kind,
        final(state).wf(),
        dispatched(opcode, CommandProfile::Adpcm, *old(state), *final(state), old(cursor).bytes(), old(cursor).position as int,
            final(cursor).bytes(), final(cursor).position as int, result),
{
    dispatch_common(opcode, cursor, state, CommandProfile::Adpcm)
}

/// Runs a command on the 86 board's PCM part.
pub fn dispatch_p86(opcode: u8, cursor: &mut PartCursor, state: &mut CommandState) -> (result: Result<(), CommandError>)
    requires
        old(state).wf(),
    ensures
        final(state).channel.kind == old(state).channel.kind,
        final(state).wf(),
        dispatched(opcode, CommandProfile::P86, *old(state), *final(state), old(cursor).bytes(), old(cursor).position as int,
            final(cursor).bytes(), final(cursor).position as int, result),
{
    dispatch_common(opcode, cursor, state, CommandProfile::P86)
}

/// Runs a command on a PPZ8 part.
pub fn dispatch_ppz8(opcode: u8, cursor: &mut PartCursor, state: &mut CommandState) -> (result: Result<(), CommandError>)
    requires
        old(state).wf(),
    ensures
        final(state).channel.kind == old(state).channel.kind,
        final(state).wf(),
        dispatched(opcode, CommandProfile::Ppz8, *old(state), *final(state), old(cursor).bytes(), old(cursor).position as int,
            final(cursor).bytes(), final(cursor).position as int, result),
{
    dispatch_common(opcode, cursor, state, CommandProfile::Ppz8)
}

/// Reads and runs the next command of a part: `0x80` ends the part; an
/// unknown opcode is overwritten with the end mark, the cursor left on it.
/// What running the command at `start` does: `0x80` ends the part; an
/// opcode below 0xb1 is overwritten with the end mark; others are
/// dispatched on the part's sound source. `f` is the state after, `fbytes`
/// and `end` the stream and read position after.
pub open spec fn dispatch_done(
    o: CommandState,
    f: CommandState,
    bytes: Seq<u8>,
    start: int,
    fbytes: Seq<u8>,
    end: int,
    result: Result<CommandOutcome, CommandError>,
) -> bool {
    &&& f.channel.kind == o.channel.kind
    &&& !(start + 1 <= bytes.len()) ==> result == Err::<CommandOutcome, CommandError>(CommandError::Truncated { position: start as usize, needed: 1 })
        && f == o
    &&& start + 1 <= bytes.len() ==> ({
        let opcode = bytes[start];
        if opcode == 0x80 {
            &&& result == Ok::<CommandOutcome, CommandError>(CommandOutcome::EndOfPart { position: start as usize })
            &&& f == o
            &&& fbytes == bytes
            &&& end == start + 1
        } else if opcode < 0xb1 {
            &&& result == Ok::<CommandOutcome, CommandError>(CommandOutcome::UnknownTerminated { opcode, position: start as usize })
            &&& f == o
            &&& fbytes == bytes.update(start, 0x80)
            &&& end == start
        } else {
            &&& !(result matches Err(CommandError::UnknownOpcode { .. }))
            &&& result is Ok ==> result == Ok::<CommandOutcome, CommandError>(
                CommandOutcome::Executed { opcode, start: start as usize, end: end as usize },
            )
            &&& dispatched(opcode, profile_of(o.channel.kind), o, f, bytes, start + 1, fbytes, end,
                match result { Ok(_) => Ok(()), Err(e) => Err(e) })
        }
    })
}

pub fn dispatch(cursor: &mut PartCursor, state: &mut CommandState) -> (result: Result<CommandOutcome, CommandError>)
    requires
        old(state).wf(),
    ensures
        final(state).wf(),
        dispatch_done(*old(state), *final(state), old(cursor).bytes(), old(cursor).position as int, final(cursor).bytes(),
            final(cursor).position as int, result),
{
    let start = cursor.position();
    let opcode = cursor.read_u8()?;
    if opcode == 0x80 {
        return Ok(CommandOutcome::EndOfPart { position: start });
    }
    let result = match state.channel.kind {
        ChannelKind::Fm => dispatch_fm(opcode, cursor, state),
        ChannelKind::Ssg => dispatch_ssg(opcode, cursor, state),
        ChannelKind::Rhythm => dispatch_rhythm(opcode, cursor, state),
        ChannelKind::Adpcm => dispatch_adpcm(opcode, cursor, state),
        ChannelKind::P86 => dispatch_p86(opcode, cursor, state),
        ChannelKind::Ppz8 => dispatch_ppz8(opcode, cursor, state),
    };
    match result {
        Ok(()) => Ok(CommandOutcome::Executed { opcode, start, end: cursor.position() }),
        Err(CommandError::UnknownOpcode { opcode }) => {
            cursor.write_at(start, 0x80)?;
            cursor.set_position(start)?;
            Ok(CommandOutcome::UnknownTerminated { opcode, position: start })
        },
        Err(error) => Err(error),
    }
}

} // verus!
