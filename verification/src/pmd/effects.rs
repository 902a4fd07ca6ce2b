use vstd::prelude::*;
use super::channel::{ChannelKind, ChannelState, SequencerGlobals, volume_limit_spec, lfo_reset, lfo_swapped};

verus! {

/// What a part sounds like after one driver tick: the values the register
/// writer and the display read.
#[derive(Clone, Copy, Debug, PartialEq, Eq)]
pub struct VoiceFrame {
    pub pitch: i32,
    pub fm_base_pitch: i32,
    pub pitch_enabled: bool,
    pub p86_pitch: u32,
    pub pitch_lfo: i32,
    pub portamento: i32,
    pub detune: i32,
    pub volume: i32,
    pub base_volume: i32,
    pub volume_lfo: i32,
    pub lfo_data: i32,
    pub secondary_lfo_data: i32,
    pub envelope: i32,
    pub gate_length: i32,
    pub remaining: i32,
    pub psg_pattern: i32,
    pub slot_mask: i32,
    pub volume_mask: i32,
    pub secondary_volume_mask: i32,
    pub lfoswi: i32,
    pub sdelay_mask: i32,
    pub sdelay_counter: i32,
    pub carrier: i32,
    pub slot_tl: [i32; 4],
    pub slot_detune: [i32; 4],
    pub algorithm_feedback: i32,
    pub fmpan: i32,
    pub voice_number: i32,
    pub fm_volume_down: i32,
    pub ssg_volume_down: i32,
    pub force_volume_write: bool,
    pub force_pitch_write: bool,
    pub force_key_on: bool,
    pub volume_write_allowed: bool,
    pub envelope_mode: i32,
}

/// Which registers a tick must rewrite whatever changed.
#[derive(Clone, Copy, Debug, PartialEq, Eq, Structural)]
pub struct FrameUpdate {
    pub force_volume_write: bool,
    pub force_pitch_write: bool,
    pub force_key_on: bool,
}

impl Default for FrameUpdate {
    fn default() -> (update: Self)
        ensures
            update == (FrameUpdate { force_volume_write: false, force_pitch_write: false, force_key_on: false }),
    {
        FrameUpdate { force_volume_write: false, force_pitch_write: false, force_key_on: false }
    }
}


/// FM F-numbers of the twelve semitones (and three extra keys) at block 0.
pub const FM_FNUM: [i32; 15] = [
    0x026a, 0x028f, 0x02b6, 0x02df, 0x030b, 0x0339, 0x036a, 0x039e, 0x03d5, 0x0410, 0x044e, 0x048f,
    0x0ee8, 0x0e12, 0x0d48,
];

/// SSG tone periods of the semitones at octave 0.
pub const PSG_TUNE: [i32; 15] = [
    0x0ee8, 0x0e12, 0x0d48, 0x0c89, 0x0bd5, 0x0b2b, 0x0a8a, 0x09f3, 0x0964, 0x08dd, 0x085e, 0x07e6,
    0x8080, 0x8080, 0xe0a0,
];

/// ADPCM delta-N values of the semitones at octave 5.
pub const PCM_TUNE: [i32; 15] = [
    0x6264, 0x6840, 0x6e74, 0x7506, 0x7bfc, 0x835e, 0x8b2e, 0x9376, 0x9c3c, 0xa588, 0xaf62, 0xb9d0,
    0x3e80, 0x3c73, 0x7400,
];

/// The 86 board's packed pitches (octave shift and 21-bit rate) per note.
pub const P86_TUNE: [u32; 101] = [
    0xff002ab7, 0xff002d41, 0xff002ff2, 0xff0032cb, 0xff0035d1, 0xff003904, 0xff003c68, 0xff003fff,
    0xff0043ce, 0xff0047d6, 0xff004c1b, 0xff0050a2, 0xff00556e, 0xff005a82, 0xff005fe4, 0xff006597,
    0xff006ba2, 0xff007209, 0xff0078d0, 0xff007fff, 0xff00879c, 0xff008fac, 0xff009837, 0xff00a145,
    0xff00aadc, 0xff00b504, 0xff00bfc8, 0xff00cb2f, 0xff00d744, 0xff00e412, 0xff00f1a1, 0xff010000,
    0xff20cb6b, 0xff20d783, 0xff20e454, 0xff20f1e7, 0xff40aadc, 0xff40b504, 0xff40bfc8, 0xff40cb2f,
    0xff40d744, 0xff40e412, 0xff40f1a1, 0xff410000, 0xff60cb6b, 0xff60d783, 0xff60e454, 0xff60f1e7,
    0xff80aadc, 0xff80b504, 0xff80bfc8, 0xff80cb2f, 0xff80d744, 0xff80e412, 0xff80f1a1, 0xff810000,
    0xffa0cb6b, 0xffa0d783, 0xffa0e454, 0xffa0f1e7, 0xffc0aadc, 0xffc0b504, 0xffc0bfc8, 0xffc0cb2f,
    0xffc0d744, 0xffc0e412, 0xffc0f1a1, 0xffc10000, 0xffe0cb6b, 0xffe0d783, 0xffe0e454, 0xffe0f1e7,
    0xffe1004a, 0xffe10f87, 0xffe11fac, 0xffe130c7, 0xffe142e7, 0xffe1561c, 0xffe16a72, 0xffe18000,
    0xffe196d6, 0xffe1af06, 0xffe1c8a8, 0xffe1e3cf, 0xffe20094, 0xffe21f0e, 0xffe23f59, 0xffe2618f,
    0xffe285ce, 0xffe2ac38, 0xffe2d4e5, 0xffe30000, 0xffe32dac, 0xffe35e0d, 0xffe39150, 0xffe3c79e,
    0xff80463e, 0xff407400, 0xff11800c, 0xff387606, 0xff0d76a2,
];

/// PPZ8 rates of the semitones at octave 4.
pub const PPZ_TUNE: [i32; 15] = [
    0x8000, 0x87a6, 0x8fb3, 0x9838, 0xa146, 0xaade, 0xb4ff, 0xbfcc, 0xcb34, 0xd747, 0xe418, 0xf1a5,
    0x3e80, 0x42de, 0x7400,
];

/// Two's-complement sum, difference and product, as the driver's 32-bit
/// registers compute them.
pub open spec fn wadd(a: i32, b: i32) -> i32 {
    vstd::wrapping::i32_specs::wrapping_add(a, b)
}

pub open spec fn wsub(a: i32, b: i32) -> i32 {
    vstd::wrapping::i32_specs::wrapping_sub(a, b)
}

pub open spec fn wmul(a: i32, b: i32) -> i32 {
    vstd::wrapping::i32_specs::wrapping_mul(a, b)
}

/// The key (low nibble) and octave (next nibble) of a note byte.
pub open spec fn note_key(note: i32) -> int {
    (note & 0x0f) as int
}

pub open spec fn note_octave(note: i32) -> int {
    ((note >> 4) & 0x0f) as int
}

/// A note moved by `shift` semitones (rests and a zero shift stay): the
/// octave follows the key over and under the octave's twelve keys and is
/// kept within 0 to 7.
pub open spec fn note_shifted(note: i32, shift: i32) -> i32 {
    if note & 0x0f == 0x0f || shift == 0 {
        note
    } else {
        let k = note_key(note) + shift;
        let (octave, key) = if shift < 0 && k >= 0 { (note_octave(note), k) } else { (note_octave(note) + k / 12, k % 12) };
        let clamped = if octave < 0 { 0 } else if octave > 7 { 7 } else { octave };
        (clamped * 16 + key) as i32
    }
}

proof fn lemma_nibbles(note: i32)
    ensures
        0 <= note & 0x0f <= 15,
        0 <= (note >> 4) & 0x0f <= 15,
{
    assert(0 <= note & 0x0f <= 15 && 0 <= (note >> 4) & 0x0f <= 15) by (bit_vector);
}

pub fn shifted_note(note: i32, shift: i32) -> (shifted: i32)
    ensures
        shifted == note_shifted(note, shift),
{
    if note & 0x0f == 0x0f || shift == 0 {
        return note;
    }
    proof { lemma_nibbles(note); }
    let k: i64 = (note & 0x0f) as i64 + shift as i64;
    let octave0: i64 = ((note >> 4) & 0x0f) as i64;
    let (octave, key): (i64, i64) = if shift < 0 && k >= 0 {
        (octave0, k)
    } else if k >= 0 {
        (octave0 + k / 12, k % 12)
    } else {
        let below = (-k + 11) / 12;
        (octave0 - below, k + below * 12)
    };
    proof {
        if !(shift < 0 && k >= 0) && k < 0 {
            let below = (-k + 11) / 12;
            assert(k + below * 12 == (k as int) % 12 && octave0 - below == octave0 + (k as int) / 12) by (nonlinear_arith)
                requires below == (-k + 11) / 12, k < 0;
        }
    }
    let clamped: i64 = if octave < 0 { 0 } else if octave > 7 { 7 } else { octave };
    (clamped * 16 + key) as i32
}

/// A key's table entry (keys 0 to 14).
pub open spec fn fm_fnum(key: int) -> i32 {
    FM_FNUM@[key]
}

/// The SSG tone period of a note: the octave-0 period halved once per
/// octave, rounding the last halving up.
pub open spec fn psg_period(note: i32) -> i32 {
    let value = PSG_TUNE@[note_key(note)];
    let octave = note_octave(note);
    if octave > 0 {
        let shifted = value >> ((octave - 1) as i32);
        ((shifted >> 1) + (shifted & 1)) as i32
    } else {
        value
    }
}

/// The ADPCM note and delta-N of a note: octaves above 5 are played at 5
/// (or, for rates below 0x8000, doubled as octave 6).
pub open spec fn adpcm_note(note: i32) -> (i32, i32) {
    let pitch = PCM_TUNE@[note_key(note)];
    let octave = note_octave(note);
    if octave > 5 {
        if pitch < 0x8000 {
            ((6 * 16 + note_key(note)) as i32, (pitch * 2) as i32)
        } else {
            ((5 * 16 + note_key(note)) as i32, pitch)
        }
    } else {
        (note, pitch >> ((5 - octave) as i32))
    }
}

/// The 86 board note and packed pitch of a note: with its volume mode on,
/// notes from 0x65 up are folded back an octave.
pub open spec fn p86_note(note: i32, volume_mode: bool) -> (i32, u32) {
    let key = note & 0x0f;
    let canonical = if volume_mode && note >= 0x65 { if key < 5 { (0x60 | key) as i32 } else { (0x50 | key) as i32 } } else { note };
    let index = ((canonical & 0xf0) >> 4) * 12 + (canonical & 0x0f);
    (canonical, if 0 <= index < 101 { P86_TUNE@[index as int] } else { 0 })
}

/// The PPZ8 rate of a note: the octave-4 rate shifted by the octave.
pub open spec fn ppz_rate(note: i32) -> i32 {
    let value = PPZ_TUNE@[note_key(note)] as i64;
    let octave = note_octave(note) - 4;
    (if octave < 0 { value >> ((-octave) as i64) } else { value << (octave as i64) }) as i32
}

/// The F-number (FM), period (SSG), delta-N (ADPCM) or rate (PPZ8) of a
/// note that is not a rest.
pub open spec fn note_pitch(kind: ChannelKind, note: i32) -> i32 {
    match kind {
        ChannelKind::Fm => fm_fnum(note_key(note)) | (((note >> 1) & 0x38) * 256) as i32,
        ChannelKind::Ssg => psg_period(note),
        ChannelKind::Adpcm => adpcm_note(note).1,
        ChannelKind::Ppz8 => ppz_rate(note),
        _ => 0,
    }
}

pub fn adpcm_pitch(note: i32) -> (result: (i32, i32))
    requires
        note & 0x0f != 0x0f,
    ensures
        result == adpcm_note(note),
{
    proof { lemma_nibbles(note); }
    let key = (note & 0x0f) as usize;
    let octave = (note >> 4) & 0x0f;
    let pitch = PCM_TUNE[key];
    if octave > 5 {
        if pitch < 0x8000 {
            return (6 * 16 + (note & 0x0f), pitch * 2);
        }
        return (5 * 16 + (note & 0x0f), pitch);
    }
    (note, pitch >> (5 - octave))
}

pub fn p86_pitch(note: i32, volume_mode: bool) -> (result: (i32, u32))
    ensures
        result == p86_note(note, volume_mode),
{
    let key = note & 0x0f;
    let canonical = if volume_mode && note >= 0x65 { if key < 5 { 0x60 | key } else { 0x50 | key } } else { note };
    proof {
        assert(0 <= (canonical & 0xf0) >> 4 <= 15 && 0 <= canonical & 0x0f <= 15) by (bit_vector);
    }
    let index = ((canonical & 0xf0) >> 4) * 12 + (canonical & 0x0f);
    let pitch = if 0 <= index && index < 101 { P86_TUNE[index as usize] } else { 0 };
    (canonical, pitch)
}

pub fn ppz_pitch(note: i32) -> (rate: i32)
    requires
        note & 0x0f != 0x0f,
    ensures
        rate == ppz_rate(note),
{
    proof { lemma_nibbles(note); }
    let key = (note & 0x0f) as usize;
    let octave = ((note >> 4) & 0x0f) - 4;
    let value = PPZ_TUNE[key] as i64;
    let shifted = if octave < 0 { value >> ((-octave) as i64) } else { value << (octave as i64) };
    shifted as i32
}

/// On an FM part a note of one of the twelve semitones plays at its
/// octave's block over its key's F-number: bits 11 to 13 of the pitch
/// hold the octave (the note's high nibble, up to 7) and bits 0 to 10 the
/// key's block-0 F-number.
pub proof fn law_fm_pitch_block_is_octave(note: i32)
    requires
        note & 0x0f < 12,
    ensures
        (note_pitch(ChannelKind::Fm, note) >> 11) & 7 == (note >> 4) & 7,
        note_pitch(ChannelKind::Fm, note) & 0x7ff == FM_FNUM@[(note & 0x0f) as int],
{
    lemma_nibbles(note);
    let f = fm_fnum((note & 0x0f) as int);
    assert(forall|k: int| 0 <= k < 12 ==> 0 <= #[trigger] FM_FNUM@[k] < 0x800);
    assert(((f | (((note >> 1) & 0x38) * 256) as i32) >> 11) & 7 == (note >> 4) & 7
        && (f | (((note >> 1) & 0x38) * 256) as i32) & 0x7ff == f) by (bit_vector)
        requires
            0 <= f < 0x800;
}

pub fn base_pitch(kind: ChannelKind, note: i32) -> (pitch: i32)
    requires
        note & 0x0f != 0x0f,
    ensures
        pitch == note_pitch(kind, note),
        kind == ChannelKind::Fm && note & 0x0f < 12 ==> (pitch >> 11) & 7 == (note >> 4) & 7
            && pitch & 0x7ff == FM_FNUM@[(note & 0x0f) as int],
{
    proof {
        if kind == ChannelKind::Fm && note & 0x0f < 12 {
            law_fm_pitch_block_is_octave(note);
        }
    }
    proof { lemma_nibbles(note); }
    let key = (note & 0x0f) as usize;
    match kind {
        ChannelKind::Fm => {
            proof { assert(0 <= (note >> 1) & 0x38 <= 0x38) by (bit_vector); }
            FM_FNUM[key] | (((note >> 1) & 0x38) * 256)
        },
        ChannelKind::Ssg => {
            let value = PSG_TUNE[key];
            let octave = (note >> 4) & 0x0f;
            if octave > 0 {
                let shifted = value >> (octave - 1);
                proof {
                    assert(-0x4000_0000 <= shifted >> 1 <= 0x3fff_ffff && 0 <= shifted & 1 <= 1) by (bit_vector);
                }
                (shifted >> 1) + (shifted & 1)
            } else {
                value
            }
        },
        ChannelKind::Adpcm => adpcm_pitch(note).1,
        ChannelKind::Rhythm | ChannelKind::P86 => 0,
        ChannelKind::Ppz8 => ppz_pitch(note),
    }
}


/// An FM pitch moved up an octave block at a time until its F-number is
/// below two octaves' worth (the top block keeps the F-number, capped).
pub open spec fn fm_up(block: int, f: int) -> int
    decreases 0x4000 - block,
{
    if block >= 0x4000 || f < 0x26a * 2 {
        block + f
    } else if block + 0x800 >= 0x4000 {
        0x3800 + (if f >= 0x800 { 0x7ff } else { f })
    } else {
        fm_up(block + 0x800, f - 0x26a)
    }
}

/// An FM pitch moved down an octave block at a time until its F-number is
/// at least the lowest key's (block 0 keeps it, raised to at least 8).
pub open spec fn fm_down(block: int, f: int) -> int
    decreases block,
{
    if f >= 0x26a {
        block + f
    } else if block - 0x800 >= 0 {
        fm_down(block - 0x800, f + 0x26a)
    } else if f < 8 {
        8
    } else {
        f
    }
}

/// The F-number and block an FM part plays: its F-number moved by the
/// portamento, detune and LFO, renormalised into a valid block.
pub open spec fn fm_pitch(fnum: i32, moved: i32) -> int {
    let block = (fnum & 0x3800) as int;
    let f = wadd(fnum & 0x7ff, moved) as int;
    if f >= 0x26a { fm_up(block, f) } else { fm_down(block, f) }
}

proof fn lemma_fm_block(fnum: i32)
    ensures
        0 <= fnum & 0x3800 <= 0x3800,
        (fnum & 0x3800) % 0x800 == 0,
        0 <= fnum & 0x7ff <= 0x7ff,
{
    assert(0 <= fnum & 0x3800 <= 0x3800 && (fnum & 0x3800) % 0x800 == 0 && 0 <= fnum & 0x7ff <= 0x7ff) by (bit_vector);
}

pub fn fm_effective_pitch(channel: &ChannelState, lfo: i32) -> (pitch: i32)
    ensures
        pitch == fm_pitch(channel.fnum, wadd(wadd(channel.porta_num, channel.detune), lfo)),
{
    proof { lemma_fm_block(channel.fnum); }
    let moved = channel.porta_num.wrapping_add(channel.detune).wrapping_add(lfo);
    let mut block: i32 = channel.fnum & 0x3800;
    let mut fnum: i32 = (channel.fnum & 0x7ff).wrapping_add(moved);
    let ghost start_block = block as int;
    let ghost start_f = fnum as int;
    if fnum >= 0x26a {
        while fnum >= 0x26a * 2
            invariant
                0 <= block <= 0x3800,
                block % 0x800 == 0,
                fnum >= 0x26a,
                fm_up(block as int, fnum as int) == fm_up(start_block, start_f),
                start_block == (channel.fnum & 0x3800) as int,
                start_f == wadd(channel.fnum & 0x7ff, moved) as int,
                moved == wadd(wadd(channel.porta_num, channel.detune), lfo),
                start_f >= 0x26a,
            decreases 0x4000 - block,
        {
            if block + 0x800 >= 0x4000 {
                let capped = if fnum >= 0x800 { 0x7ff } else { fnum };
                return 0x3800 + capped;
            }
            block = block + 0x800;
            fnum = fnum - 0x26a;
        }
        return block + fnum;
    }
    while fnum < 0x26a
        invariant
            0 <= block <= 0x3800,
            block % 0x800 == 0,
            fnum < 0x26a + 0x26a,
            fm_down(block as int, fnum as int) == fm_down(start_block, start_f),
            start_block == (channel.fnum & 0x3800) as int,
            start_f == wadd(channel.fnum & 0x7ff, moved) as int,
            moved == wadd(wadd(channel.porta_num, channel.detune), lfo),
            start_f < 0x26a,
        decreases block,
    {
        if block - 0x800 < 0 {
            return if fnum < 8 { 8 } else { fnum };
        }
        block = block - 0x800;
        fnum = fnum + 0x26a;
    }
    block + fnum
}

/// The packed 86 board pitch a part plays: its rate moved by the detune
/// (in steps of 32, kept within 1 to 65535 steps) unless its volume mode is
/// on.
pub open spec fn p86_played(c: ChannelState) -> u32 {
    if c.kind != ChannelKind::P86 || c.p86_fnum == 0 {
        0
    } else {
        let block = c.p86_fnum & 0x0e00_0000;
        let frequency = c.p86_fnum & 0x001f_ffff;
        let moved = (frequency >> 5) as int + c.detune;
        let adjusted = if c.pcm86_volume == 0 && c.detune != 0 {
            (((if moved < 1 { 1 } else if moved > 65535 { 65535 } else { moved }) as u32) << 5u32) as u32
        } else {
            frequency
        };
        block | adjusted
    }
}

pub fn effective_p86_pitch(channel: &ChannelState) -> (pitch: u32)
    ensures
        pitch == p86_played(*channel),
{
    match channel.kind {
        ChannelKind::P86 => {},
        _ => {
            return 0;
        },
    }
    if channel.p86_fnum == 0 {
        return 0;
    }
    let block = channel.p86_fnum & 0x0e00_0000;
    let mut frequency = channel.p86_fnum & 0x001f_ffff;
    if channel.pcm86_volume == 0 && channel.detune != 0 {
        let moved = (frequency >> 5) as i64 + channel.detune as i64;
        let clamped: u32 = if moved < 1 { 1 } else if moved > 65535 { 65535 } else { moved as u32 };
        frequency = clamped << 5u32;
    }
    block | frequency
}

/// `(value * factor) >> 12`, moved one further from zero.
pub open spec fn product_shift(value: i32, factor: i32) -> i32 {
    let product = (value as int * factor as int) as i64 >> 12i64;
    if product >= 0 { (product + 1) as i32 } else { (product - 1) as i32 }
}

pub fn signed_product_shift(value: i32, factor: i32) -> (shifted: i32)
    ensures
        shifted == product_shift(value, factor),
{
    assert(-0x4000_0000_0000_0000 <= value as i64 * factor as i64 <= 0x4000_0000_0000_0000) by (nonlinear_arith);
    let wide: i64 = value as i64 * factor as i64;
    let product = wide >> 12i64;
    proof {
        assert(-0x8_0000_0000_0000 <= product <= 0x8_0000_0000_0000) by (bit_vector)
            requires product == wide >> 12i64, -0x4000_0000_0000_0000 <= wide <= 0x4000_0000_0000_0000;
    }
    if product >= 0 {
        (product + 1) as i32
    } else {
        (product - 1) as i32
    }
}

/// The pitch LFO a part adds: the LFOs whose pitch switch is on.
pub open spec fn tone_lfo_of(c: ChannelState) -> i32 {
    wadd(if c.lfoswi & 1 != 0 { c.lfo_data } else { 0 }, if c.lfoswi & 0x10 != 0 { c.secondary_lfo_data } else { 0 })
}

/// The volume LFO a part adds: the LFOs whose volume switch is on.
pub open spec fn volume_lfo_of(c: ChannelState) -> i32 {
    wadd(if c.lfoswi & 2 != 0 { c.lfo_data } else { 0 }, if c.lfoswi & 0x20 != 0 { c.secondary_lfo_data } else { 0 })
}

pub fn tone_lfo(channel: &ChannelState) -> (value: i32)
    ensures
        value == tone_lfo_of(*channel),
{
    let main = if channel.lfoswi & 1 != 0 { channel.lfo_data } else { 0 };
    let secondary = if channel.lfoswi & 0x10 != 0 { channel.secondary_lfo_data } else { 0 };
    main.wrapping_add(secondary)
}

pub fn volume_lfo(channel: &ChannelState) -> (value: i32)
    ensures
        value == volume_lfo_of(*channel),
{
    let main = if channel.lfoswi & 2 != 0 { channel.lfo_data } else { 0 };
    let secondary = if channel.lfoswi & 0x20 != 0 { channel.secondary_lfo_data } else { 0 };
    main.wrapping_add(secondary)
}

/// Division rounding towards zero.
pub open spec fn quotient(a: int, b: int) -> int {
    crate::pmd::banks::trunc_div(a, b)
}

/// The pitch value a part plays with an LFO amount: FM F-number and block,
/// SSG period (the detune and LFO subtract, scaled by the period in
/// extended mode), ADPCM delta-N (LFO times four), PPZ8 rate (detune and
/// LFO in 1/256ths of the rate, kept non-negative); 0 for the others.
pub open spec fn pitch_of(c: ChannelState, lfo: i32) -> i32 {
    match c.kind {
        ChannelKind::Fm => fm_pitch(c.fnum, wadd(wadd(c.porta_num, c.detune), lfo)) as i32,
        ChannelKind::Ssg => {
            let base = wadd(c.fnum, c.porta_num);
            if c.extendmode & 1 == 0 {
                wsub(wsub(base, c.detune), lfo)
            } else {
                wsub(wsub(base, product_shift(base, c.detune)), product_shift(base, lfo))
            }
        },
        ChannelKind::Adpcm => wadd(wadd(wadd(c.fnum, c.porta_num), c.detune), wmul(lfo, 4)),
        ChannelKind::Ppz8 => {
            let scaled = quotient(c.fnum as int, 256) * (wadd(lfo, c.detune) as int);
            let total = c.fnum as int + (c.porta_num as int) * 16 + scaled;
            (if total < 0 { 0 } else if total > 0x7fff_ffff { 0x7fff_ffff } else { total }) as i32
        },
        _ => 0,
    }
}

pub fn effective_pitch(channel: &ChannelState, lfo: i32) -> (pitch: i32)
    ensures
        pitch == pitch_of(*channel, lfo),
{
    match channel.kind {
        ChannelKind::Fm => fm_effective_pitch(channel, lfo),
        ChannelKind::Ssg => {
            let base = channel.fnum.wrapping_add(channel.porta_num);
            if channel.extendmode & 1 == 0 {
                base.wrapping_sub(channel.detune).wrapping_sub(lfo)
            } else {
                let detune = signed_product_shift(base, channel.detune);
                let shifted = signed_product_shift(base, lfo);
                base.wrapping_sub(detune).wrapping_sub(shifted)
            }
        },
        ChannelKind::Adpcm => channel.fnum.wrapping_add(channel.porta_num).wrapping_add(channel.detune).wrapping_add(lfo.wrapping_mul(4)),
        ChannelKind::P86 | ChannelKind::Rhythm => 0,
        ChannelKind::Ppz8 => {
            let fnum = channel.fnum as i64;
            let coarse: i64 = if fnum >= 0 { fnum / 256 } else { -((-fnum) / 256) };
            let factor = lfo.wrapping_add(channel.detune) as i64;
            assert(-0x80_0000_0000_0000 <= coarse * factor <= 0x80_0000_0000_0000) by (nonlinear_arith)
                requires -0x80_0000 <= coarse <= 0x80_0000, -0x8000_0000 <= factor <= 0x7fff_ffff;
            let total = fnum + (channel.porta_num as i64) * 16 + coarse * factor;
            (if total < 0 { 0 } else if total > 0x7fff_ffff { 0x7fff_ffff } else { total }) as i32
        },
    }
}

/// The output volume of a part with a volume LFO amount: FM volumes are
/// kept within 0 to 127; for the others the envelope applies (scaling in the
/// extended mode, adding otherwise) and the result stays within the
/// source's limit.
pub open spec fn volume_of(c: ChannelState, lfo: i32) -> i32 {
    let base = if c.vol_push != 0 { wsub(c.vol_push, 1) } else { c.volume };
    let limit = volume_limit_spec(c.kind) as int;
    if c.kind == ChannelKind::Fm {
        (if base < 0 { 0 } else if base > 127 { 127 } else { base as int }) as i32
    } else if c.env_flag == -1i32 {
        if c.env_volume == 0 {
            0
        } else {
            let product = wmul(base, wadd(c.env_volume, 1));
            let halved = wadd(product >> 3i32, 1) >> 1i32;
            let scaled = if halved < 0 { 0 } else { halved };
            let total = wadd(scaled, lfo) as int;
            (if total < 0 { 0 } else if total > limit { limit } else { total }) as i32
        }
    } else {
        let envelope = if c.env_flag == 3 { 0 } else { c.env_volume };
        let total = wadd(wadd(base, envelope), lfo) as int;
        (if total < 0 { 0 } else if total > limit { limit } else { total }) as i32
    }
}

pub fn effective_volume(channel: &ChannelState, lfo: i32) -> (volume: i32)
    ensures
        volume == volume_of(*channel, lfo),
{
    let base = if channel.vol_push != 0 { channel.vol_push.wrapping_sub(1) } else { channel.volume };
    if channel.kind.is_fm() {
        return if base < 0 { 0 } else if base > 127 { 127 } else { base };
    }
    let limit = channel.volume_limit();
    if channel.env_flag == -1 {
        if channel.env_volume == 0 {
            return 0;
        }
        let product = base.wrapping_mul(channel.env_volume.wrapping_add(1));
        let halved = (product >> 3i32).wrapping_add(1) >> 1i32;
        let scaled = if halved < 0 { 0 } else { halved };
        let total = scaled.wrapping_add(lfo);
        return if total < 0 { 0 } else if total > limit { limit } else { total };
    }
    let envelope = if channel.env_flag == 3 { 0 } else { channel.env_volume };
    let total = base.wrapping_add(envelope).wrapping_add(lfo);
    if total < 0 { 0 } else if total > limit { limit } else { total }
}

/// The driver's random generator: the next seed, and the value it gives
/// for a maximum (0 for a maximum of zero or less).
pub open spec fn next_seed(seed: i32) -> i32 {
    wadd(wmul(259, seed), 3) & 0x7fff
}

pub open spec fn random_value(seed: i32, maximum: i32) -> i32 {
    if maximum <= 0 { 0 } else { quotient(wmul(seed, maximum) as int, 32767) as i32 }
}

pub fn next_random(globals: &mut SequencerGlobals, maximum: i32) -> (value: i32)
    ensures
        *final(globals) == (SequencerGlobals { random_seed: next_seed(old(globals).random_seed), ..*old(globals) }),
        value == random_value(next_seed(old(globals).random_seed), maximum),
{
    globals.random_seed = 259i32.wrapping_mul(globals.random_seed).wrapping_add(3) & 0x7fff;
    if maximum <= 0 {
        return 0;
    }
    let product = globals.random_seed.wrapping_mul(maximum);
    if product >= 0 {
        product / 32767
    } else {
        -((-(product as i64)) / 32767) as i32
    }
}

/// Releases a part's note: FM parts flag the key-off, envelopes go to their
/// release phase.
pub open spec fn keyed_off(c: ChannelState) -> ChannelState {
    if c.kind == ChannelKind::Fm {
        ChannelState { keyoff_flag: -1i32, ..c }
    } else if c.env_flag != -1i32 {
        ChannelState { env_flag: 2, ..c }
    } else {
        ChannelState { env_count: 4, ..c }
    }
}

pub fn key_off(channel: &mut ChannelState)
    ensures
        *final(channel) == keyed_off(*old(channel)),
{
    if channel.kind.is_fm() {
        channel.keyoff_flag = -1;
    } else if channel.env_flag != -1 {
        channel.env_flag = 2;
    } else {
        channel.env_count = 4;
    }
}

/// How many envelope steps a tick takes: one, or one per timer A period
/// elapsed when the part counts envelopes in timer A time.
pub open spec fn envelope_tick_count(c: ChannelState, timer_a_delta: u32) -> i32 {
    if c.extendmode & 4 != 0 { (if timer_a_delta > 0x7fff_ffff { 0x7fff_ffff } else { timer_a_delta as int }) as i32 } else { 1 }
}

pub fn envelope_ticks(channel: &ChannelState, timer_a_delta: u32) -> (ticks: i32)
    ensures
        ticks == envelope_tick_count(*channel, timer_a_delta),
{
    if channel.extendmode & 4 != 0 {
        (if timer_a_delta > 0x7fff_ffff { 0x7fff_ffff } else { timer_a_delta }) as i32
    } else {
        1
    }
}

/// The early key-off length of a note: `q` plus the `Q` share of the
/// length, then the random part of `q` (added, or subtracted down to 0),
/// and at most the length less the minimum rest.
pub open spec fn gate_of(c: ChannelState, seed: i32, length: i32) -> (i32, i32) {
    let with_share = if c.qdatb != 0 { wadd(c.qdata, wmul(length, c.qdatb) >> 8i32) } else { c.qdata };
    let (gate, next) = if c.qdat3 != 0 {
        let seed2 = next_seed(seed);
        let random = random_value(seed2, ((c.qdat3 & 0x7f) + 1) as i32);
        (if c.qdat3 & 0x80 == 0 { wadd(with_share, random) } else {
            let lowered = wsub(with_share, random);
            if lowered < 0 { 0 } else { lowered }
        }, seed2)
    } else {
        (with_share, seed)
    };
    let minimum = wsub(length, c.qdat2);
    (if c.qdat2 != 0 { if minimum < 0 { 0 } else if gate < minimum { gate } else { minimum } } else { gate }, next)
}

pub fn calculate_gate(channel: &mut ChannelState, globals: &mut SequencerGlobals, length: i32)
    ensures
        *final(channel) == (ChannelState { qdat: gate_of(*old(channel), old(globals).random_seed, length).0, ..*old(channel) }),
        *final(globals) == (SequencerGlobals { random_seed: gate_of(*old(channel), old(globals).random_seed, length).1, ..*old(globals) }),
{
    let mut gate = channel.qdata;
    if channel.qdatb != 0 {
        gate = gate.wrapping_add(length.wrapping_mul(channel.qdatb) >> 8i32);
    }
    if channel.qdat3 != 0 {
        let q = channel.qdat3;
        proof { assert(0 <= q & 0x7f <= 0x7f) by (bit_vector); }
        let random = next_random(globals, (channel.qdat3 & 0x7f) + 1);
        if channel.qdat3 & 0x80 == 0 {
            gate = gate.wrapping_add(random);
        } else {
            gate = gate.wrapping_sub(random);
            if gate < 0 {
                gate = 0;
            }
        }
    }
    if channel.qdat2 != 0 {
        let minimum = length.wrapping_sub(channel.qdat2);
        channel.qdat = if minimum < 0 { 0 } else if gate < minimum { gate } else { minimum };
    } else {
        channel.qdat = gate;
    }
}


/// One step of the software envelope (attack count, decay/sustain, then
/// release), with whether the envelope level changed.
pub open spec fn normal_step(c: ChannelState) -> (ChannelState, bool) {
    let before = c.env_volume;
    if c.env_flag == 0 {
        let ar = wsub(c.env_ar, 1);
        if ar != 0 {
            (ChannelState { env_ar: ar, ..c }, false)
        } else {
            (ChannelState { env_ar: ar, env_flag: 1, env_volume: c.env_dr, ..c }, before != c.env_dr)
        }
    } else if c.env_flag != 2 {
        if c.env_sr == 0 {
            (c, false)
        } else {
            let sr = wsub(c.env_sr, 1);
            if sr != 0 {
                (ChannelState { env_sr: sr, ..c }, false)
            } else {
                let volume = wsub(c.env_volume, 1);
                (ChannelState { env_sr: c.env_src, env_volume: volume, ..c }, before != volume)
            }
        }
    } else if c.env_rr == 0 {
        (ChannelState { env_volume: -15i32, ..c }, before != -15i32)
    } else {
        let rr = wsub(c.env_rr, 1);
        if rr != 0 {
            (ChannelState { env_rr: rr, ..c }, false)
        } else {
            let lowered = wsub(c.env_volume, 1);
            let volume = if lowered >= -15 && lowered < 15 { lowered } else { -15i32 };
            (ChannelState { env_rr: c.env_rrc, env_volume: volume, ..c }, before != volume)
        }
    }
}

pub fn normal_envelope_step(channel: &mut ChannelState) -> (changed: bool)
    ensures
        final(channel).kind == old(channel).kind,
        (*final(channel), changed) == normal_step(*old(channel)),
{
    let before = channel.env_volume;
    if channel.env_flag == 0 {
        channel.env_ar = channel.env_ar.wrapping_sub(1);
        if channel.env_ar != 0 {
            return false;
        }
        channel.env_flag = 1;
        channel.env_volume = channel.env_dr;
        return before != channel.env_volume;
    }
    if channel.env_flag != 2 {
        if channel.env_sr == 0 {
            return false;
        }
        channel.env_sr = channel.env_sr.wrapping_sub(1);
        if channel.env_sr != 0 {
            return false;
        }
        channel.env_sr = channel.env_src;
        channel.env_volume = channel.env_volume.wrapping_sub(1);
        return before != channel.env_volume;
    }
    if channel.env_rr == 0 {
        channel.env_volume = -15;
        return before != channel.env_volume;
    }
    channel.env_rr = channel.env_rr.wrapping_sub(1);
    if channel.env_rr != 0 {
        return false;
    }
    channel.env_rr = channel.env_rrc;
    channel.env_volume = channel.env_volume.wrapping_sub(1);
    if channel.env_volume >= -15 && channel.env_volume < 15 {
        return before != channel.env_volume;
    }
    channel.env_volume = -15;
    before != channel.env_volume
}

/// A rate counter of the extended envelope refilled from its rate (rates
/// below 16 count twice as long).
pub open spec fn rate_refill(rate: i32) -> i32 {
    if rate < 16 { wmul(wsub(rate, 16), 2) } else { wsub(rate, 16) }
}

/// One step of the extended (hardware-like) envelope: attack to 15, decay
/// to the sustain level, sustain and release towards 0.
pub open spec fn extended_step(c: ChannelState) -> (ChannelState, bool) {
    let before = c.env_volume;
    let next = if c.env_count == 0 {
        c
    } else if c.env_count == 1 {
        if c.env_arc > 0 {
            let volume = wadd(c.env_volume, c.env_arc);
            if volume < 15 {
                ChannelState { env_volume: volume, env_arc: wsub(c.env_ar, 16), ..c }
            } else if c.env_sl != 15 {
                ChannelState { env_volume: 15, env_count: 2, ..c }
            } else {
                ChannelState { env_volume: 15, env_count: 3, ..c }
            }
        } else if c.env_ar != 0 {
            ChannelState { env_arc: wadd(c.env_arc, 1), ..c }
        } else {
            c
        }
    } else if c.env_count == 2 {
        if c.env_drc > 0 {
            let volume = wsub(c.env_volume, c.env_drc);
            if volume < 0 || volume < c.env_sl {
                ChannelState { env_volume: c.env_sl, env_count: 3, ..c }
            } else {
                ChannelState { env_volume: volume, env_drc: rate_refill(c.env_dr), ..c }
            }
        } else if c.env_dr != 0 {
            ChannelState { env_drc: wadd(c.env_drc, 1), ..c }
        } else {
            c
        }
    } else if c.env_count == 3 {
        if c.env_src > 0 {
            let volume = wsub(c.env_volume, c.env_src);
            ChannelState { env_volume: if volume < 0 { 0 } else { volume }, env_src: rate_refill(c.env_sr), ..c }
        } else if c.env_sr != 0 {
            ChannelState { env_src: wadd(c.env_src, 1), ..c }
        } else {
            c
        }
    } else if c.env_rrc > 0 {
        let volume = wsub(c.env_volume, c.env_rrc);
        ChannelState { env_volume: if volume < 0 { 0 } else { volume }, env_rrc: wsub(wmul(c.env_rr, 2), 16), ..c }
    } else if c.env_rr != 0 {
        ChannelState { env_rrc: wadd(c.env_rrc, 1), ..c }
    } else {
        c
    };
    (next, before != next.env_volume)
}

pub fn extended_envelope_step(channel: &mut ChannelState) -> (changed: bool)
    ensures
        final(channel).kind == old(channel).kind,
        (*final(channel), changed) == extended_step(*old(channel)),
{
    let before = channel.env_volume;
    if channel.env_count == 0 {
        return false;
    }
    if channel.env_count == 1 {
        if channel.env_arc > 0 {
            channel.env_volume = channel.env_volume.wrapping_add(channel.env_arc);
            if channel.env_volume < 15 {
                channel.env_arc = channel.env_ar.wrapping_sub(16);
                return before != channel.env_volume;
            }
            channel.env_volume = 15;
            channel.env_count = 2;
            if channel.env_sl != 15 {
                return before != channel.env_volume;
            }
            channel.env_count = 3;
        } else if channel.env_ar != 0 {
            channel.env_arc = channel.env_arc.wrapping_add(1);
        }
    } else if channel.env_count == 2 {
        if channel.env_drc > 0 {
            channel.env_volume = channel.env_volume.wrapping_sub(channel.env_drc);
            if channel.env_volume < 0 || channel.env_volume < channel.env_sl {
                channel.env_volume = channel.env_sl;
                channel.env_count = 3;
                return before != channel.env_volume;
            }
            channel.env_drc = if channel.env_dr < 16 {
                channel.env_dr.wrapping_sub(16).wrapping_mul(2)
            } else {
                channel.env_dr.wrapping_sub(16)
            };
        } else if channel.env_dr != 0 {
            channel.env_drc = channel.env_drc.wrapping_add(1);
        }
    } else if channel.env_count == 3 {
        if channel.env_src > 0 {
            channel.env_volume = channel.env_volume.wrapping_sub(channel.env_src);
            if channel.env_volume < 0 {
                channel.env_volume = 0;
            }
            channel.env_src = if channel.env_sr < 16 {
                channel.env_sr.wrapping_sub(16).wrapping_mul(2)
            } else {
                channel.env_sr.wrapping_sub(16)
            };
        } else if channel.env_sr != 0 {
            channel.env_src = channel.env_src.wrapping_add(1);
        }
    } else {
        if channel.env_rrc > 0 {
            channel.env_volume = channel.env_volume.wrapping_sub(channel.env_rrc);
            if channel.env_volume < 0 {
                channel.env_volume = 0;
            }
            channel.env_rrc = channel.env_rr.wrapping_mul(2).wrapping_sub(16);
        } else if channel.env_rr != 0 {
            channel.env_rrc = channel.env_rrc.wrapping_add(1);
        }
    }
    before != channel.env_volume
}

/// One envelope step of whichever envelope the part uses.
pub open spec fn envelope_step(c: ChannelState) -> (ChannelState, bool) {
    if c.env_flag == -1i32 { extended_step(c) } else { normal_step(c) }
}

/// `n` envelope steps, with whether any changed the level.
#[verifier::opaque]
pub open spec fn envelope_steps(c: ChannelState, n: nat) -> (ChannelState, bool)
    decreases n,
{
    if n == 0 {
        (c, false)
    } else {
        let (before, changed) = envelope_steps(c, (n - 1) as nat);
        let (after, now) = envelope_step(before);
        (after, changed || now)
    }
}

pub fn advance_envelope(channel: &mut ChannelState, globals: &mut SequencerGlobals, ticks: i32) -> (changed: bool)
    ensures
        final(channel).kind == old(channel).kind,
        (*final(channel), changed) == envelope_steps(*old(channel), if ticks < 0 { 0 } else { ticks as nat }),
        *final(globals) == *old(globals),
        same_settings(*old(channel), *final(channel)),
{
    proof {
        reveal(envelope_steps);
    }
    let count: i32 = if ticks < 0 { 0 } else { ticks };
    let mut changed = false;
    let mut index: i32 = 0;
    while index < count
        invariant
            0 <= index <= count,
            (*channel, changed) == envelope_steps(*old(channel), index as nat),
        decreases count - index,
    {
        let now = if channel.env_flag == -1 { extended_envelope_step(channel) } else { normal_envelope_step(channel) };
        changed = changed || now;
        index = index + 1;
        proof {
            reveal(envelope_steps);
        }
    }
    proof { lemma_envelope_keeps(*old(channel), count as nat); }
    changed
}

/// The envelope restarted for a new note.
#[verifier::opaque]
pub open spec fn envelope_started(c: ChannelState) -> ChannelState {
    if c.env_flag != -1i32 {
        let base = ChannelState { env_flag: 0, env_volume: 0, env_ar: c.env_arc, env_sr: c.env_src, env_rr: c.env_rrc, ..c };
        if c.env_arc == 0 { ChannelState { env_flag: 1, env_volume: c.env_dr, ..base } } else { base }
    } else {
        ChannelState {
            env_arc: wsub(c.env_ar, 16),
            env_drc: rate_refill(c.env_dr),
            env_src: rate_refill(c.env_sr),
            env_rrc: wsub(wmul(c.env_rr, 2), 16),
            env_volume: c.env_al,
            env_count: 1,
            ..c
        }
    }
}

pub fn initialize_envelope(channel: &mut ChannelState)
    ensures
        final(channel).kind == old(channel).kind,
        *final(channel) == envelope_started(*old(channel)),
        same_settings(*old(channel), *final(channel)),
{
    proof {
        reveal(envelope_started);
    }
    if channel.env_flag != -1 {
        channel.env_flag = 0;
        channel.env_volume = 0;
        channel.env_ar = channel.env_arc;
        if channel.env_ar == 0 {
            channel.env_flag = 1;
            channel.env_volume = channel.env_dr;
        }
        channel.env_sr = channel.env_src;
        channel.env_rr = channel.env_rrc;
    } else {
        channel.env_arc = channel.env_ar.wrapping_sub(16);
        channel.env_drc = if channel.env_dr < 16 {
            channel.env_dr.wrapping_sub(16).wrapping_mul(2)
        } else {
            channel.env_dr.wrapping_sub(16)
        };
        channel.env_src = if channel.env_sr < 16 {
            channel.env_sr.wrapping_sub(16).wrapping_mul(2)
        } else {
            channel.env_sr.wrapping_sub(16)
        };
        channel.env_rrc = channel.env_rr.wrapping_mul(2).wrapping_sub(16);
        channel.env_volume = channel.env_al;
        channel.env_count = 1;
    }
}


/// The magnitude of a value (the most negative value stays as it is).
pub open spec fn wabs(v: i32) -> i32 {
    if v < 0 { wsub(0, v) } else { v }
}

/// The LFO depth change after a waveform period: every `mdspd2` periods
/// (while the count lasts) the step moves away from zero by `mdepth`,
/// within -127 to 127, stopping at 0 when a negative depth crosses it.
pub open spec fn depth_stepped(c: ChannelState) -> ChannelState {
    let speed = wsub(c.mdspd, 1);
    if speed != 0 {
        ChannelState { mdspd: speed, ..c }
    } else if c.mdc == 0 {
        ChannelState { mdspd: c.mdspd2, ..c }
    } else {
        let count = if c.mdc <= 127 { wsub(c.mdc, 1) } else { c.mdc };
        let step = if c.step < 0 {
            let value = wsub(c.mdepth, c.step);
            if value < 128 { wsub(0, value) } else if c.mdepth < 0 { 0 } else { -127i32 }
        } else {
            let value = wadd(c.step, c.mdepth);
            if value < 128 { value } else if c.mdepth < 0 { 0 } else { 127 }
        };
        ChannelState { mdspd: c.mdspd2, mdc: count, step, ..c }
    }
}

pub fn depth_increment(channel: &mut ChannelState)
    ensures
        final(channel).kind == old(channel).kind,
        *final(channel) == depth_stepped(*old(channel)),
{
    channel.mdspd = channel.mdspd.wrapping_sub(1);
    if channel.mdspd != 0 {
        return;
    }
    channel.mdspd = channel.mdspd2;
    if channel.mdc == 0 {
        return;
    }
    if channel.mdc <= 127 {
        channel.mdc = channel.mdc.wrapping_sub(1);
    }
    if channel.step < 0 {
        let value = channel.mdepth.wrapping_sub(channel.step);
        channel.step = if value < 128 { 0i32.wrapping_sub(value) } else if channel.mdepth < 0 { 0 } else { -127 };
    } else {
        let value = channel.step.wrapping_add(channel.mdepth);
        channel.step = if value < 128 { value } else if channel.mdepth < 0 { 0 } else { 127 };
    }
}

/// One tick of the main LFO at its speed: waves 0, 4 and 5 are triangles
/// (5 with a squared step), 1 a sawtooth, 2 a square, 6 a one-shot ramp and
/// the others random. Returns the part and the random seed after it.
pub open spec fn lfo_stepped(c: ChannelState, seed: i32) -> (ChannelState, i32) {
    if c.speed != 1 {
        (ChannelState { speed: if c.speed != 255 { wsub(c.speed, 1) } else { c.speed }, ..c }, seed)
    } else {
        let c0 = ChannelState { speed: c.secondary_speed, ..c };
        let wave = c0.lfo_wave;
        if wave == 0 || wave == 4 || wave == 5 {
            let step = if wave == 5 { wmul(wabs(c0.step), c0.step) } else { c0.step };
            let data = wadd(c0.lfo_data, step);
            let c1 = ChannelState { lfo_data: data, ..c0 };
            let c2 = if data == 0 { depth_stepped(c1) } else { c1 };
            if c2.time != 255 {
                let time = wsub(c2.time, 1);
                if time == 0 {
                    let refill = if wave != 4 { wadd(c2.secondary_time, c2.secondary_time) } else { c2.secondary_time };
                    (ChannelState { time: refill, step: wsub(0, c2.step), ..c2 }, seed)
                } else {
                    (ChannelState { time, ..c2 }, seed)
                }
            } else {
                (c2, seed)
            }
        } else if wave == 2 {
            let c1 = depth_stepped(ChannelState { lfo_data: wmul(c0.step, c0.time), ..c0 });
            (ChannelState { step: wsub(0, c1.step), ..c1 }, seed)
        } else if wave == 6 {
            if c0.time != 0 {
                (ChannelState {
                    time: if c0.time != 255 { wsub(c0.time, 1) } else { c0.time },
                    lfo_data: wadd(c0.lfo_data, c0.step),
                    ..c0
                }, seed)
            } else {
                (c0, seed)
            }
        } else if wave == 1 {
            let c1 = ChannelState { lfo_data: wadd(c0.lfo_data, c0.step), ..c0 };
            if c1.time != -1i32 {
                let time = wsub(c1.time, 1);
                if time == 0 {
                    let c2 = depth_stepped(ChannelState { lfo_data: wsub(0, c1.lfo_data), ..c1 });
                    (ChannelState { time: wmul(c2.secondary_time, 2), ..c2 }, seed)
                } else {
                    (ChannelState { time, ..c1 }, seed)
                }
            } else {
                (c1, seed)
            }
        } else {
            let maximum = wmul(wabs(c0.step), c0.time);
            let next = next_seed(seed);
            let random = random_value(next, wmul(maximum, 2));
            (depth_stepped(ChannelState { lfo_data: wsub(maximum, random), ..c0 }), next)
        }
    }
}

pub fn lfo_main(channel: &mut ChannelState, globals: &mut SequencerGlobals)
    ensures
        final(channel).kind == old(channel).kind,
        (*final(channel), final(globals).random_seed) == lfo_stepped(*old(channel), old(globals).random_seed),
        *final(globals) == (SequencerGlobals { random_seed: final(globals).random_seed, ..*old(globals) }),
{
    if channel.speed != 1 {
        if channel.speed != 255 {
            channel.speed = channel.speed.wrapping_sub(1);
        }
        return;
    }
    channel.speed = channel.secondary_speed;
    let wave = channel.lfo_wave;
    if wave == 0 || wave == 4 || wave == 5 {
        let step = if wave == 5 {
            let magnitude = if channel.step < 0 { 0i32.wrapping_sub(channel.step) } else { channel.step };
            magnitude.wrapping_mul(channel.step)
        } else {
            channel.step
        };
        channel.lfo_data = channel.lfo_data.wrapping_add(step);
        if channel.lfo_data == 0 {
            depth_increment(channel);
        }
        let mut time = channel.time;
        if time != 255 {
            time = time.wrapping_sub(1);
            if time == 0 {
                time = channel.secondary_time;
                if wave != 4 {
                    time = time.wrapping_add(time);
                }
                channel.time = time;
                channel.step = 0i32.wrapping_sub(channel.step);
                return;
            }
        }
        channel.time = time;
    } else if wave == 2 {
        channel.lfo_data = channel.step.wrapping_mul(channel.time);
        depth_increment(channel);
        channel.step = 0i32.wrapping_sub(channel.step);
    } else if wave == 6 {
        if channel.time != 0 {
            if channel.time != 255 {
                channel.time = channel.time.wrapping_sub(1);
            }
            channel.lfo_data = channel.lfo_data.wrapping_add(channel.step);
        }
    } else if wave == 1 {
        channel.lfo_data = channel.lfo_data.wrapping_add(channel.step);
        let mut time = channel.time;
        if time != -1 {
            time = time.wrapping_sub(1);
            if time == 0 {
                channel.lfo_data = 0i32.wrapping_sub(channel.lfo_data);
                depth_increment(channel);
                time = channel.secondary_time.wrapping_mul(2);
            }
        }
        channel.time = time;
    } else {
        let magnitude = if channel.step < 0 { 0i32.wrapping_sub(channel.step) } else { channel.step };
        let maximum = magnitude.wrapping_mul(channel.time);
        let random = next_random(globals, maximum.wrapping_mul(2));
        channel.lfo_data = maximum.wrapping_sub(random);
        depth_increment(channel);
    }
}

/// `n` ticks of the main LFO.
#[verifier::opaque]
pub open spec fn lfo_steps(c: ChannelState, seed: i32, n: nat) -> (ChannelState, i32)
    decreases n,
{
    if n == 0 {
        (c, seed)
    } else {
        let (before, s) = lfo_steps(c, seed, (n - 1) as nat);
        lfo_stepped(before, s)
    }
}

/// One driver tick of the main LFO: a pending delay counts down first;
/// otherwise it runs once (or once per timer A period in that mode).
/// Returns the part, the seed and whether the LFO value changed.
#[verifier::opaque]
pub open spec fn lfo_ticked(c: ChannelState, seed: i32, timer_a_delta: u32) -> (ChannelState, i32, bool) {
    if c.delay != 0 {
        (ChannelState { delay: wsub(c.delay, 1), ..c }, seed, false)
    } else {
        let count: nat = if c.extendmode & 2 != 0 { timer_a_delta as nat } else { 1 };
        let (after, next) = lfo_steps(c, seed, count);
        (after, next, after.lfo_data != c.lfo_data)
    }
}

/// The settings the work area invariant covers are unchanged.
pub open spec fn same_settings(a: ChannelState, b: ChannelState) -> bool {
    &&& b.volume == a.volume
    &&& b.lfoswi == a.lfoswi
    &&& b.extendmode == a.extendmode
    &&& b.slot_mask == a.slot_mask
    &&& b.part_mask == a.part_mask
    &&& b.carrier == a.carrier
    &&& b.algorithm_feedback == a.algorithm_feedback
    &&& b.slot_tl == a.slot_tl
    &&& b.kind == a.kind
}

proof fn lemma_lfo_steps_keep(c: ChannelState, seed: i32, n: nat)
    ensures
        same_settings(c, lfo_steps(c, seed, n).0),
    decreases n,
{
    reveal(lfo_steps);
    if n > 0 {
        lemma_lfo_steps_keep(c, seed, (n - 1) as nat);
    }
}

pub fn lfo_once(channel: &mut ChannelState, globals: &mut SequencerGlobals, timer_a_delta: u32) -> (changed: bool)
    ensures
        final(channel).kind == old(channel).kind,
        (*final(channel), final(globals).random_seed, changed) == lfo_ticked(*old(channel), old(globals).random_seed, timer_a_delta),
        *final(globals) == (SequencerGlobals { random_seed: final(globals).random_seed, ..*old(globals) }),
        same_settings(*old(channel), *final(channel)),
{
    proof {
        reveal(lfo_ticked);
        reveal(lfo_steps);
    }
    if channel.delay != 0 {
        channel.delay = channel.delay.wrapping_sub(1);
        return false;
    }
    let before = channel.lfo_data;
    let count: u32 = if channel.extendmode & 2 != 0 { timer_a_delta } else { 1 };
    let mut index: u32 = 0;
    while index < count
        invariant
            index <= count,
            (*channel, globals.random_seed) == lfo_steps(*old(channel), old(globals).random_seed, index as nat),
            *globals == (SequencerGlobals { random_seed: globals.random_seed, ..*old(globals) }),
        decreases count - index,
    {
        lfo_main(channel, globals);
        index = index + 1;
        proof {
            reveal(lfo_steps);
        }
    }
    proof { lemma_lfo_steps_keep(*old(channel), old(globals).random_seed, count as nat); }
    before != channel.lfo_data
}


proof fn lemma_lfo_keeps_wf(a: ChannelState, b: ChannelState)
    requires
        a.wf(),
        same_settings(a, b),
    ensures
        b.wf(),
{
}

/// The LFOs restarted for a new note: the main one (restarted unless its
/// keep bit is set) and the secondary one (restarted unless synchronised)
/// each take one tick; the slot delay counter restarts.
#[verifier::opaque]
pub open spec fn lfo_entered(c: ChannelState, seed: i32, timer_a_delta: u32) -> (ChannelState, i32) {
    let c0 = ChannelState { sdelay_counter: c.sdelay, ..c };
    let (c1, s1) = if c0.lfoswi & 3 != 0 {
        let ticked = lfo_ticked(if c0.lfoswi & 4 == 0 { lfo_reset(c0) } else { c0 }, seed, timer_a_delta);
        (ticked.0, ticked.1)
    } else {
        (c0, seed)
    };
    if c1.lfoswi & 0x30 != 0 {
        let swapped = lfo_swapped(c1);
        let ticked = lfo_ticked(if c1.lfoswi & 0x40 == 0 { lfo_reset(swapped) } else { swapped }, s1, timer_a_delta);
        (lfo_swapped(ticked.0), ticked.1)
    } else {
        (c1, s1)
    }
}

pub fn lfo_entry(channel: &mut ChannelState, globals: &mut SequencerGlobals, timer_a_delta: u32)
    requires
        old(channel).wf(),
    ensures
        final(channel).kind == old(channel).kind,
        final(channel).wf(),
        (*final(channel), final(globals).random_seed) == lfo_entered(*old(channel), old(globals).random_seed, timer_a_delta),
        *final(globals) == (SequencerGlobals { random_seed: final(globals).random_seed, ..*old(globals) }),
{
    proof {
        reveal(lfo_entered);
    }
    channel.sdelay_counter = channel.sdelay;
    if channel.lfoswi & 3 != 0 {
        if channel.lfoswi & 4 == 0 {
            channel.reset_lfo_main();
        }
        let ghost before = *channel;
        lfo_once(channel, globals, timer_a_delta);
        proof { lemma_lfo_keeps_wf(before, *channel); }
    }
    if channel.lfoswi & 0x30 != 0 {
        let synchronized = channel.lfoswi & 0x40 != 0;
        channel.swap_lfo();
        if !synchronized {
            channel.reset_lfo_main();
        }
        let ghost before = *channel;
        lfo_once(channel, globals, timer_a_delta);
        proof { lemma_lfo_keeps_wf(before, *channel); }
        channel.swap_lfo();
    }
}

/// The LFOs ticked without a restart (a tied note or a rest).
#[verifier::opaque]
pub open spec fn lfo_continued(c: ChannelState, seed: i32, timer_a_delta: u32) -> (ChannelState, i32) {
    let (c1, s1) = if c.lfoswi & 3 != 0 {
        let ticked = lfo_ticked(c, seed, timer_a_delta);
        (ticked.0, ticked.1)
    } else {
        (c, seed)
    };
    if c1.lfoswi & 0x30 != 0 {
        let ticked = lfo_ticked(lfo_swapped(c1), s1, timer_a_delta);
        (lfo_swapped(ticked.0), ticked.1)
    } else {
        (c1, s1)
    }
}

pub fn lfo_exit(channel: &mut ChannelState, globals: &mut SequencerGlobals, timer_a_delta: u32)
    requires
        old(channel).wf(),
    ensures
        final(channel).kind == old(channel).kind,
        final(channel).wf(),
        (*final(channel), final(globals).random_seed) == lfo_continued(*old(channel), old(globals).random_seed, timer_a_delta),
        *final(globals) == (SequencerGlobals { random_seed: final(globals).random_seed, ..*old(globals) }),
{
    proof {
        reveal(lfo_continued);
    }
    if channel.lfoswi & 3 != 0 {
        let ghost before = *channel;
        lfo_once(channel, globals, timer_a_delta);
        proof { lemma_lfo_keeps_wf(before, *channel); }
    }
    if channel.lfoswi & 0x30 != 0 {
        channel.swap_lfo();
        let ghost before = *channel;
        lfo_once(channel, globals, timer_a_delta);
        proof { lemma_lfo_keeps_wf(before, *channel); }
        channel.swap_lfo();
    }
}

/// One driver tick of both LFOs and the portamento. Returns the part, the
/// seed and the switch bits of what moved (8 for a running portamento).
#[verifier::opaque]
pub open spec fn lfo_advanced(c: ChannelState, seed: i32, timer_a_delta: u32) -> (ChannelState, i32, i32) {
    let (c1, s1, bits1) = if c.lfoswi & 3 != 0 {
        let ticked = lfo_ticked(c, seed, timer_a_delta);
        (ticked.0, ticked.1, if ticked.2 { (c.lfoswi & 8) | (ticked.0.lfoswi & 3) } else { c.lfoswi & 8 })
    } else {
        (c, seed, c.lfoswi & 8)
    };
    let (c2, s2, bits2) = if c1.lfoswi & 0x30 != 0 {
        let swapped = lfo_swapped(c1);
        let ticked = lfo_ticked(swapped, s1, timer_a_delta);
        (lfo_swapped(ticked.0), ticked.1, if ticked.2 { bits1 | (ticked.0.lfoswi & 0x30) } else { bits1 })
    } else {
        (c1, s1, bits1)
    };
    let c3 = if c2.lfoswi & 8 != 0 {
        let moved = wadd(c2.porta_num, c2.porta_num2);
        if c2.porta_num3 > 0 {
            ChannelState { porta_num: wadd(moved, 1), porta_num3: wsub(c2.porta_num3, 1), ..c2 }
        } else if c2.porta_num3 < 0 {
            ChannelState { porta_num: wsub(moved, 1), porta_num3: wadd(c2.porta_num3, 1), ..c2 }
        } else {
            ChannelState { porta_num: moved, ..c2 }
        }
    } else {
        c2
    };
    (c3, s2, bits2)
}

pub fn advance_lfo(channel: &mut ChannelState, globals: &mut SequencerGlobals, timer_a_delta: u32) -> (switch: i32)
    requires
        old(channel).wf(),
    ensures
        final(channel).kind == old(channel).kind,
        final(channel).wf(),
        (*final(channel), final(globals).random_seed, switch) == lfo_advanced(*old(channel), old(globals).random_seed, timer_a_delta),
        *final(globals) == (SequencerGlobals { random_seed: final(globals).random_seed, ..*old(globals) }),
{
    proof {
        reveal(lfo_advanced);
    }
    let mut switch = channel.lfoswi & 8;
    if channel.lfoswi & 3 != 0 {
        let ghost before = *channel;
        let changed = lfo_once(channel, globals, timer_a_delta);
        proof { lemma_lfo_keeps_wf(before, *channel); }
        if changed {
            switch = switch | (channel.lfoswi & 3);
        }
    }
    if channel.lfoswi & 0x30 != 0 {
        channel.swap_lfo();
        let ghost before = *channel;
        let changed = lfo_once(channel, globals, timer_a_delta);
        proof { lemma_lfo_keeps_wf(before, *channel); }
        if changed {
            switch = switch | (channel.lfoswi & 0x30);
        }
        channel.swap_lfo();
    }
    if channel.lfoswi & 8 != 0 {
        channel.porta_num = channel.porta_num.wrapping_add(channel.porta_num2);
        if channel.porta_num3 > 0 {
            channel.porta_num3 = channel.porta_num3.wrapping_sub(1);
            channel.porta_num = channel.porta_num.wrapping_add(1);
        } else if channel.porta_num3 < 0 {
            channel.porta_num3 = channel.porta_num3.wrapping_add(1);
            channel.porta_num = channel.porta_num.wrapping_sub(1);
        }
    }
    switch
}


proof fn lemma_envelope_keeps(c: ChannelState, n: nat)
    ensures
        same_settings(c, envelope_steps(c, n).0),
    decreases n,
{
    reveal(envelope_steps);
    if n > 0 {
        lemma_envelope_keeps(c, (n - 1) as nat);
    }
}

proof fn lemma_low_nibble(octave: i32, key: i32)
    requires
        0 <= octave <= 7,
        0 <= key <= 14,
    ensures
        ((octave * 16 + key) as i32) & 0x0f == key,
{
    assert(((octave * 16 + key) as i32) & 0x0f == key) by (bit_vector)
        requires 0 <= octave <= 7, 0 <= key <= 14;
}

proof fn lemma_shifted_not_rest(note: i32, shift: i32)
    requires
        note & 0x0f != 0x0f,
    ensures
        note_shifted(note, shift) & 0x0f != 0x0f,
{
    lemma_nibbles(note);
    if shift != 0 {
        let k = note_key(note) + shift;
        let (octave, key) = if shift < 0 && k >= 0 { (note_octave(note), k) } else { (note_octave(note) + k / 12, k % 12) };
        let clamped = if octave < 0 { 0 } else if octave > 7 { 7 } else { octave };
        lemma_low_nibble(clamped as i32, key as i32);
    }
}

/// A rest: no note, and no pitch unless an LFO keeps the last one.
pub open spec fn rested(c: ChannelState) -> ChannelState {
    if c.lfoswi & 0x11 == 0 { ChannelState { onkai: 255, fnum: 0, p86_fnum: 0, ..c } } else { ChannelState { onkai: 255, ..c } }
}

/// The note and pitch a part plays for a note, after its transposition.
#[verifier::opaque]
pub open spec fn tuned(c: ChannelState, note: i32) -> ChannelState {
    let shifted = note_shifted(note, wadd(c.shift, c.shift_def));
    match c.kind {
        ChannelKind::Adpcm => ChannelState { onkai: adpcm_note(shifted).0, fnum: adpcm_note(shifted).1, ..c },
        ChannelKind::P86 => {
            let tuned = p86_note(shifted, c.pcm86_volume != 0);
            ChannelState { onkai: tuned.0, p86_fnum: tuned.1, fnum: 0, ..c }
        },
        _ => ChannelState { onkai: shifted, fnum: note_pitch(c.kind, shifted), ..c },
    }
}

fn tune(channel: &mut ChannelState, note: i32)
    requires
        note & 0x0f != 0x0f,
    ensures
        final(channel).kind == old(channel).kind,
        *final(channel) == tuned(*old(channel), note),
        same_settings(*old(channel), *final(channel)),
{
    proof {
        reveal(tuned);
    }
    let shift = channel.shift.wrapping_add(channel.shift_def);
    let shifted = shifted_note(note, shift);
    proof { lemma_shifted_not_rest(note, shift); }
    match channel.kind {
        ChannelKind::Adpcm => {
            let (canonical, pitch) = adpcm_pitch(shifted);
            channel.onkai = canonical;
            channel.fnum = pitch;
        },
        ChannelKind::P86 => {
            let (canonical, pitch) = p86_pitch(shifted, channel.pcm86_volume != 0);
            channel.onkai = canonical;
            channel.p86_fnum = pitch;
            channel.fnum = 0;
        },
        _ => {
            channel.onkai = shifted;
            channel.fnum = base_pitch(channel.kind, shifted);
        },
    }
}

/// The pitch fields for a note alone (a portamento's target).
pub open spec fn pitch_only(c: ChannelState, raw: u8) -> ChannelState {
    if (raw as i32) & 0x0f == 0x0f { rested(c) } else { tuned(c, raw as i32) }
}

pub fn set_pitch_only(channel: &mut ChannelState, raw_note: u8)
    ensures
        final(channel).kind == old(channel).kind,
        *final(channel) == pitch_only(*old(channel), raw_note),
{
    proof {
        reveal(tuned);
    }
    let note = raw_note as i32;
    if note & 0x0f == 0x0f {
        channel.onkai = 255;
        if channel.lfoswi & 0x11 == 0 {
            channel.fnum = 0;
            channel.p86_fnum = 0;
        }
        return;
    }
    tune(channel, note);
}

/// A tick count as a number of steps.
pub open spec fn step_count(ticks: i32) -> nat {
    if ticks < 0 { 0 } else { ticks as nat }
}

/// A part starting a note (`0x0c` repeats the last note, a `0x0f` key is a
/// rest): envelopes and LFOs restart unless the note is tied, then the note
/// is tuned. Returns the part and the random seed.
pub open spec fn note_started(c: ChannelState, g: SequencerGlobals, raw: u8, timer_a_delta: u32) -> (ChannelState, i32) {
    let note = if (raw as i32) & 0x0f == 0x0c { c.onkai_def } else { raw as i32 };
    let c0 = ChannelState { onkai_def: note, pcm86_volume: g.pcm86_volume, ..c };
    let seed = g.random_seed;
    let tied = g.tie_flag & 1 != 0;
    if note & 0x0f == 0x0f {
        let c1 = rested(c0);
        let c2 = if c1.kind != ChannelKind::Fm { envelope_steps(c1, step_count(envelope_tick_count(c1, timer_a_delta))).0 } else { c1 };
        lfo_continued(c2, seed, timer_a_delta)
    } else {
        let c1 = ChannelState { porta_num: 0, ..c0 };
        let (c2, s2) = if c1.kind == ChannelKind::Fm {
            if !tied { lfo_entered(c1, seed, timer_a_delta) } else { lfo_continued(c1, seed, timer_a_delta) }
        } else if !tied {
            let started = envelope_started(c1);
            let c1e = if c1.env_flag == -1i32 { envelope_steps(started, 1).0 } else { started };
            lfo_entered(c1e, seed, timer_a_delta)
        } else {
            lfo_continued(envelope_steps(c1, step_count(envelope_tick_count(c1, timer_a_delta))).0, seed, timer_a_delta)
        };
        (tuned(c2, note), s2)
    }
}

#[verifier::rlimit(60)]
pub fn start_note_with_timer_a(channel: &mut ChannelState, globals: &mut SequencerGlobals, raw_note: u8, timer_a_delta: u32)
    requires
        old(channel).wf(),
    ensures
        final(channel).wf(),
        final(channel).kind == old(channel).kind,
        (*final(channel), final(globals).random_seed) == note_started(*old(channel), *old(globals), raw_note, timer_a_delta),
        *final(globals) == (SequencerGlobals { random_seed: final(globals).random_seed, ..*old(globals) }),
{
    let mut note = raw_note as i32;
    if note & 0x0f == 0x0c {
        note = channel.onkai_def;
    }
    channel.onkai_def = note;
    channel.pcm86_volume = globals.pcm86_volume;
    if note & 0x0f == 0x0f {
        channel.onkai = 255;
        if channel.lfoswi & 0x11 == 0 {
            channel.fnum = 0;
            channel.p86_fnum = 0;
        }
        if !channel.kind.is_fm() {
            let ticks = envelope_ticks(channel, timer_a_delta);
            advance_envelope(channel, globals, ticks);
        }
        lfo_exit(channel, globals, timer_a_delta);
        return;
    }
    channel.porta_num = 0;
    let tied = globals.tie_flag & 1 != 0;
    if channel.kind.is_fm() {
        if !tied {
            lfo_entry(channel, globals, timer_a_delta);
        } else {
            lfo_exit(channel, globals, timer_a_delta);
        }
    } else if !tied {
        let extended = channel.env_flag == -1;
        initialize_envelope(channel);
        if extended {
            advance_envelope(channel, globals, 1);
        }
        lfo_entry(channel, globals, timer_a_delta);
    } else {
        let ticks = envelope_ticks(channel, timer_a_delta);
        advance_envelope(channel, globals, ticks);
        lfo_exit(channel, globals, timer_a_delta);
    }
    tune(channel, note);
}

pub fn start_note(channel: &mut ChannelState, globals: &mut SequencerGlobals, raw_note: u8)
    requires
        old(channel).wf(),
    ensures
        final(channel).wf(),
        (*final(channel), final(globals).random_seed) == note_started(*old(channel), *old(globals), raw_note, 1),
        *final(globals) == (SequencerGlobals { random_seed: final(globals).random_seed, ..*old(globals) }),
{
    start_note_with_timer_a(channel, globals, raw_note, 1);
}


pub fn truncated_quotient(a: i32, b: i32) -> (q: i32)
    requires
        b > 0,
    ensures
        q == quotient(a as int, b as int),
{
    let wide = a as i64;
    let divisor = b as i64;
    (if wide >= 0 { wide / divisor } else { -((-wide) / divisor) }) as i32
}

/// The remainder of a division rounding towards zero.
pub open spec fn remainder(a: int, b: int) -> int {
    a - b * quotient(a, b)
}

fn truncated_remainder(a: i32, b: i32) -> (r: i32)
    requires
        b > 0,
    ensures
        r == remainder(a as int, b as int),
{
    let wide = a as i64;
    let divisor = b as i64;
    let q: i64 = if wide >= 0 { wide / divisor } else { -((-wide) / divisor) };
    proof {
        let w = wide as int;
        let d = divisor as int;
        let qi = q as int;
        if w >= 0 {
            assert(0 <= w - d * qi < d) by (nonlinear_arith)
                requires d > 0, w >= 0, qi == w / d;
        } else {
            assert(-d < w - d * qi <= 0) by (nonlinear_arith)
                requires d > 0, w < 0, qi == -((-w) / d);
        }
    }
    (wide - divisor * q) as i32
}

/// The pitch distance of a portamento: FM distances count whole blocks as
/// 0x26a F-number steps.
pub open spec fn glide_distance(kind: ChannelKind, from: i32, to: i32) -> i32 {
    if kind == ChannelKind::Fm {
        let block_delta = ((quotient(to as int, 256) as i32) & 0x38) - ((quotient(from as int, 256) as i32) & 0x38);
        let octave_delta = if block_delta == 0 { 0 } else { quotient(block_delta, 8) * 0x26a };
        (octave_delta + (to & 0x7ff) - (from & 0x7ff)) as i32
    } else {
        wsub(to, from)
    }
}

/// A part after a portamento start: the first note starts, the second only
/// sets the target; the distance is spread over the length (PPZ8 in
/// sixteenths), with the remainder handed out one step per tick.
pub open spec fn glide_started(c: ChannelState, g: SequencerGlobals, from: u8, to: u8, length: i32, timer_a_delta: u32) -> (ChannelState, i32) {
    let (started, seed) = note_started(c, g, from, timer_a_delta);
    let target = pitch_only(started, to).fnum;
    let difference = glide_distance(started.kind, started.fnum, target);
    let spread = if started.kind == ChannelKind::Ppz8 { quotient(difference as int, 16) } else { difference as int };
    (ChannelState {
        porta_from: from as i32,
        porta_to: to as i32,
        porta_length: length,
        porta_num: 0,
        porta_num2: quotient(spread, length as int) as i32,
        porta_num3: remainder(spread, length as int) as i32,
        porta_delta: difference,
        porta_enabled: true,
        lfoswi: ((started.lfoswi as u8) | 8) as i32,
        ..started
    }, seed)
}

pub fn start_portamento_with_timer_a(
    channel: &mut ChannelState,
    globals: &mut SequencerGlobals,
    from: u8,
    to: u8,
    length: i32,
    timer_a_delta: u32,
) -> (result: Result<(), ()>)
    requires
        old(channel).wf(),
    ensures
        final(channel).wf(),
        final(channel).kind == old(channel).kind,
        result is Ok <==> length > 0,
        length <= 0 ==> *final(channel) == *old(channel) && *final(globals) == *old(globals),
        length > 0 ==> (*final(channel), final(globals).random_seed)
            == glide_started(*old(channel), *old(globals), from, to, length, timer_a_delta),
        *final(globals) == (SequencerGlobals { random_seed: final(globals).random_seed, ..*old(globals) }),
{
    if length <= 0 {
        return Err(());
    }
    start_note_with_timer_a(channel, globals, from, timer_a_delta);
    let from_pitch = channel.fnum;
    let from_onkai = channel.onkai;
    let from_p86_pitch = channel.p86_fnum;
    let ghost started = *channel;
    set_pitch_only(channel, to);
    let target_pitch = channel.fnum;
    proof { reveal(tuned); }
    channel.onkai = from_onkai;
    channel.fnum = from_pitch;
    channel.p86_fnum = from_p86_pitch;
    channel.porta_from = from as i32;
    channel.porta_to = to as i32;
    channel.porta_length = length;
    let difference = match channel.kind {
        ChannelKind::Fm => {
            let target_coarse = truncated_quotient(target_pitch, 256);
            let from_coarse = truncated_quotient(from_pitch, 256);
            let target_block = target_coarse & 0x38;
            let from_block = from_coarse & 0x38;
            proof {
                assert(0 <= target_coarse & 0x38 <= 0x38 && 0 <= from_coarse & 0x38 <= 0x38
                    && 0 <= target_pitch & 0x7ff <= 0x7ff && 0 <= from_pitch & 0x7ff <= 0x7ff) by (bit_vector);
            }
            let block_delta = target_block - from_block;
            let octave_delta = if block_delta == 0 { 0 } else { truncated_quotient(block_delta, 8) * 0x26a };
            octave_delta + (target_pitch & 0x7ff) - (from_pitch & 0x7ff)
        },
        _ => target_pitch.wrapping_sub(from_pitch),
    };
    channel.porta_num = 0;
    let spread = match channel.kind {
        ChannelKind::Ppz8 => truncated_quotient(difference, 16),
        _ => difference,
    };
    channel.porta_num2 = truncated_quotient(spread, length);
    channel.porta_num3 = truncated_remainder(spread, length);
    channel.porta_delta = difference;
    channel.porta_enabled = true;
    channel.lfoswi = ((channel.lfoswi as u8) | 8) as i32;
    Ok(())
}

pub fn start_portamento(channel: &mut ChannelState, globals: &mut SequencerGlobals, from: u8, to: u8, length: i32) -> (result: Result<(), ()>)
    requires
        old(channel).wf(),
    ensures
        final(channel).wf(),
        result is Ok <==> length > 0,
        length <= 0 ==> *final(channel) == *old(channel) && *final(globals) == *old(globals),
        length > 0 ==> (*final(channel), final(globals).random_seed) == glide_started(*old(channel), *old(globals), from, to, length, 1),
        *final(globals) == (SequencerGlobals { random_seed: final(globals).random_seed, ..*old(globals) }),
{
    start_portamento_with_timer_a(channel, globals, from, to, length, 1)
}

/// A part after one driver tick of its effects, with the registers the
/// tick forces: the FM slot delay's key-on, LFO pitch and volume changes,
/// and envelope level changes of non-FM parts. Returns the part, the seed
/// and the update.
pub open spec fn voice_advanced(c: ChannelState, seed: i32, timer_a_delta: u32) -> (ChannelState, i32, FrameUpdate) {
    let (c1, key_on) = if c.kind == ChannelKind::Fm && c.sdelay_counter > 0 {
        let counter = wsub(c.sdelay_counter, 1);
        (ChannelState { sdelay_counter: counter, ..c }, counter == 0 && c.keyoff_flag & 1 == 0)
    } else {
        (c, false)
    };
    let (c2, s2, pitch_write, volume_write) = if c1.lfoswi != 0 {
        let advanced = lfo_advanced(c1, seed, timer_a_delta);
        (advanced.0, advanced.1, advanced.2 & 0x19 != 0, advanced.2 & 0x22 != 0)
    } else {
        (c1, seed, false, false)
    };
    if c2.kind != ChannelKind::Fm {
        let stepped = envelope_steps(c2, step_count(envelope_tick_count(c2, timer_a_delta)));
        (stepped.0, s2, FrameUpdate { force_volume_write: volume_write || stepped.1, force_pitch_write: pitch_write, force_key_on: key_on })
    } else {
        (c2, s2, FrameUpdate { force_volume_write: volume_write, force_pitch_write: pitch_write, force_key_on: key_on })
    }
}

pub fn advance_voice_with_timer_a(channel: &mut ChannelState, globals: &mut SequencerGlobals, timer_a_delta: u32) -> (update: FrameUpdate)
    requires
        old(channel).wf(),
    ensures
        final(channel).wf(),
        final(channel).kind == old(channel).kind,
        (*final(channel), final(globals).random_seed, update) == voice_advanced(*old(channel), old(globals).random_seed, timer_a_delta),
        *final(globals) == (SequencerGlobals { random_seed: final(globals).random_seed, ..*old(globals) }),
{
    let mut update = FrameUpdate::default();
    if channel.kind.is_fm() && channel.sdelay_counter > 0 {
        channel.sdelay_counter = channel.sdelay_counter.wrapping_sub(1);
        if channel.sdelay_counter == 0 && channel.keyoff_flag & 1 == 0 {
            update.force_key_on = true;
        }
    }
    if channel.lfoswi != 0 {
        let switch = advance_lfo(channel, globals, timer_a_delta);
        update.force_pitch_write = switch & 0x19 != 0;
        update.force_volume_write = switch & 0x22 != 0;
    }
    if !channel.kind.is_fm() {
        let ticks = envelope_ticks(channel, timer_a_delta);
        let changed = advance_envelope(channel, globals, ticks);
        update.force_volume_write = update.force_volume_write || changed;
    }
    update
}

pub fn advance_voice(channel: &mut ChannelState, globals: &mut SequencerGlobals) -> (update: FrameUpdate)
    requires
        old(channel).wf(),
    ensures
        final(channel).wf(),
        (*final(channel), final(globals).random_seed, update) == voice_advanced(*old(channel), old(globals).random_seed, 1),
        *final(globals) == (SequencerGlobals { random_seed: final(globals).random_seed, ..*old(globals) }),
{
    advance_voice_with_timer_a(channel, globals, 1)
}

/// What a part sounds like this tick, with the registers it must rewrite.
pub open spec fn frame_of(c: ChannelState, remaining: i32, update: FrameUpdate) -> VoiceFrame {
    let pitch_lfo = tone_lfo_of(c);
    let volume_lfo = volume_lfo_of(c);
    VoiceFrame {
        pitch: pitch_of(c, pitch_lfo),
        fm_base_pitch: if c.kind == ChannelKind::Fm { fm_pitch(c.fnum, wadd(wadd(c.porta_num, c.detune), 0)) as i32 } else { 0 },
        pitch_enabled: c.fnum != 0,
        p86_pitch: p86_played(c),
        pitch_lfo,
        portamento: c.porta_num,
        detune: c.detune,
        volume: volume_of(c, volume_lfo),
        base_volume: if c.vol_push != 0 { wsub(c.vol_push, 1) } else { c.volume },
        volume_lfo,
        lfo_data: c.lfo_data,
        secondary_lfo_data: c.secondary_lfo_data,
        envelope: c.env_volume,
        gate_length: c.qdat,
        remaining,
        psg_pattern: c.psg_pattern,
        slot_mask: c.slot_mask,
        volume_mask: c.volume_mask,
        secondary_volume_mask: c.secondary_volume_mask,
        lfoswi: c.lfoswi,
        sdelay_mask: c.sdelay_mask,
        sdelay_counter: c.sdelay_counter,
        carrier: c.carrier,
        slot_tl: c.slot_tl,
        slot_detune: c.slot_detune,
        algorithm_feedback: c.algorithm_feedback,
        fmpan: c.fmpan,
        voice_number: c.voice_number,
        fm_volume_down: 0,
        ssg_volume_down: 0,
        force_volume_write: update.force_volume_write,
        force_pitch_write: update.force_pitch_write,
        force_key_on: update.force_key_on,
        volume_write_allowed: c.env_flag != 3 && !(c.env_flag == -1i32 && c.env_count == 0),
        envelope_mode: c.env_flag,
    }
}

pub fn frame_with_update(channel: &ChannelState, remaining: i32, update: FrameUpdate) -> (frame: VoiceFrame)
    ensures
        frame == frame_of(*channel, remaining, update),
{
    let pitch_lfo = tone_lfo(channel);
    let volume_lfo = volume_lfo(channel);
    let pitch = effective_pitch(channel, pitch_lfo);
    let volume = effective_volume(channel, volume_lfo);
    let fm_base_pitch = match channel.kind {
        ChannelKind::Fm => fm_effective_pitch(channel, 0),
        _ => 0,
    };
    VoiceFrame {
        pitch,
        fm_base_pitch,
        pitch_enabled: channel.fnum != 0,
        p86_pitch: effective_p86_pitch(channel),
        pitch_lfo,
        portamento: channel.porta_num,
        detune: channel.detune,
        volume,
        base_volume: if channel.vol_push != 0 { channel.vol_push.wrapping_sub(1) } else { channel.volume },
        volume_lfo,
        lfo_data: channel.lfo_data,
        secondary_lfo_data: channel.secondary_lfo_data,
        envelope: channel.env_volume,
        gate_length: channel.qdat,
        remaining,
        psg_pattern: channel.psg_pattern,
        slot_mask: channel.slot_mask,
        volume_mask: channel.volume_mask,
        secondary_volume_mask: channel.secondary_volume_mask,
        lfoswi: channel.lfoswi,
        sdelay_mask: channel.sdelay_mask,
        sdelay_counter: channel.sdelay_counter,
        carrier: channel.carrier,
        slot_tl: channel.slot_tl,
        slot_detune: channel.slot_detune,
        algorithm_feedback: channel.algorithm_feedback,
        fmpan: channel.fmpan,
        voice_number: channel.voice_number,
        fm_volume_down: 0,
        ssg_volume_down: 0,
        force_volume_write: update.force_volume_write,
        force_pitch_write: update.force_pitch_write,
        force_key_on: update.force_key_on,
        volume_write_allowed: channel.env_flag != 3 && !(channel.env_flag == -1 && channel.env_count == 0),
        envelope_mode: channel.env_flag,
    }
}

pub fn frame(channel: &ChannelState, remaining: i32) -> (frame: VoiceFrame)
    ensures
        frame == frame_of(*channel, remaining, FrameUpdate { force_volume_write: false, force_pitch_write: false, force_key_on: false }),
{
    frame_with_update(channel, remaining, FrameUpdate::default())
}


/// The driver's random values stay within the maximum asked for (for
/// maxima up to 0xffff, which cannot overflow the product).
pub proof fn law_random_within_maximum(seed: i32, maximum: i32)
    requires
        0 <= seed <= 0x7fff,
        0 < maximum <= 0xffff,
    ensures
        0 <= random_value(seed, maximum) <= maximum,
{
    assert(0 <= seed * maximum <= 0x7fff * 0xffff) by (nonlinear_arith)
        requires 0 <= seed <= 0x7fff, 0 < maximum <= 0xffff;
    assert(wmul(seed, maximum) == seed * maximum);
    assert((seed * maximum) / 32767 <= maximum) by (nonlinear_arith)
        requires 0 <= seed <= 0x7fff, 0 < maximum <= 0xffff;
}

/// Envelope steps taken in two runs end where taking them in one does, and
/// report a level change when either run does.
pub proof fn law_envelope_steps_compose(c: ChannelState, first: nat, second: nat)
    ensures
        envelope_steps(c, first + second).0 == envelope_steps(envelope_steps(c, first).0, second).0,
        envelope_steps(c, first + second).1 == (envelope_steps(c, first).1 || envelope_steps(envelope_steps(c, first).0, second).1),
    decreases second,
{
    reveal(envelope_steps);
    if second > 0 {
        law_envelope_steps_compose(c, first, (second - 1) as nat);
        assert((first + second - 1) as nat == first + (second - 1) as nat);
    }
}

/// A zero transposition keeps every note; a rest stays a rest whatever the
/// transposition.
/// Transposition moves a note along the semitone scale: for a note of
/// one of the twelve keys in octaves 0 to 7 and a shift that stays within
/// those octaves, the shifted note is the one `shift` semitones away
/// (octave times 12 plus key, moved by `shift`, written back as octave
/// and key).
pub proof fn law_shift_moves_semitones(note: i32, shift: i32)
    requires
        0 <= note < 0x80,
        note % 16 < 12,
        shift != 0,
        0 <= (note / 16) * 12 + note % 16 + shift < 96,
    ensures
        ({
            let target = (note / 16) * 12 + note % 16 + shift;
            note_shifted(note, shift) == (target / 12) * 16 + target % 12
        }),
{
    crate::bits::lemma_i32_nonneg_bits(note, 4);
    let octave = note >> 4u32;
    crate::bits::lemma_i32_nonneg_bits(octave, 4);
    assert(octave == note / 16 && note & 15 == note % 16);
    assert(octave >> 4u32 == 0);
    assert(note_octave(note) == note / 16);
    assert(note_key(note) == note % 16);
    let key = note_key(note) + shift;
    let target = (note / 16) * 12 + note % 16 + shift;
    assert(target == 12 * (note / 16) + key);
    if !(shift < 0 && key >= 0) {
        assert(target / 12 == note / 16 + key / 12 && target % 12 == key % 12) by {
            vstd::arithmetic::div_mod::lemma_fundamental_div_mod(key, 12);
            vstd::arithmetic::div_mod::lemma_fundamental_div_mod_converse(target, 12, note / 16 + key / 12, key % 12);
        }
    } else {
        assert(target / 12 == note / 16 && target % 12 == key) by {
            vstd::arithmetic::div_mod::lemma_fundamental_div_mod_converse(target, 12, note / 16, key);
        }
    }
}

/// The SSG tone period of a note is its key's octave-0 period divided by
/// 2 to the octave, rounded to the nearest step (halves up).
pub proof fn law_ssg_period_halves_per_octave(note: i32)
    requires
        note & 0x0f != 0x0f,
    ensures
        ({
            let value = PSG_TUNE@[(note & 0x0f) as int] as int;
            let scale = vstd::arithmetic::power2::pow2(((note >> 4) & 0x0f) as nat) as int;
            psg_period(note) as int == (value + scale / 2) / scale
        }),
{
    lemma_nibbles(note);
    let key = (note & 0x0f) as int;
    let octave = ((note >> 4) & 0x0f) as nat;
    let value = PSG_TUNE@[key];
    assert(forall|k: int| 0 <= k < 15 ==> 0 < #[trigger] PSG_TUNE@[k] <= 0xe0a0);
    vstd::arithmetic::power2::lemma_pow2_pos(octave);
    if octave == 0 {
        vstd::arithmetic::power2::lemma2_to64();
    } else {
        let below = (octave - 1) as nat;
        let half = vstd::arithmetic::power2::pow2(below) as int;
        vstd::arithmetic::power2::lemma_pow2_pos(below);
        vstd::arithmetic::power2::lemma_pow2_unfold(octave);
        crate::bits::lemma_i32_shr_is_div(value, below);
        let shifted = value >> (below as u32);
        assert(value >> ((octave - 1) as i32) == shifted);
        crate::bits::lemma_i32_nonneg_bits(shifted, 0);
        let q = (value as int) / half;
        assert(psg_period(note) as int == (q + 1) / 2);
        vstd::arithmetic::div_mod::lemma_div_plus_one(value as int, half);
        vstd::arithmetic::div_mod::lemma_div_denominator(value as int + half, half, 2);
    }
}

/// The ADPCM delta-N of a note up to octave 5 is its key's octave-5 rate
/// halved once per octave below 5 (rounding down), the note itself kept.
pub proof fn law_adpcm_rate_halves_per_octave(note: i32)
    requires
        note & 0x0f != 0x0f,
        (note >> 4) & 0x0f <= 5,
    ensures
        ({
            let value = PCM_TUNE@[(note & 0x0f) as int] as int;
            let scale = vstd::arithmetic::power2::pow2((5 - ((note >> 4) & 0x0f)) as nat) as int;
            &&& adpcm_note(note).0 == note
            &&& adpcm_note(note).1 as int == value / scale
        }),
{
    lemma_nibbles(note);
    let key = (note & 0x0f) as int;
    let steps = (5 - ((note >> 4) & 0x0f)) as nat;
    let value = PCM_TUNE@[key];
    assert(forall|k: int| 0 <= k < 15 ==> 0 < #[trigger] PCM_TUNE@[k] <= 0xb9d0);
    crate::bits::lemma_i32_shr_is_div(value, steps);
    assert(value >> ((5 - ((note >> 4) & 0x0f)) as i32) == value >> (steps as u32));
}

pub proof fn law_shift_keeps_rests_and_zero(note: i32, shift: i32)
    ensures
        note_shifted(note, 0) == note,
        note & 0x0f == 0x0f ==> note_shifted(note, shift) == note,
{
}

} // verus!
