use vstd::prelude::*;
use super::fm::mask_has;

verus! {

broadcast use crate::bits::group_bit_bounds;

pub const ADPCM_A_CHANNELS: usize = 6;
pub const ADPCM_A_REGISTERS: usize = 0x30;
pub const ADPCM_B_REGISTERS: usize = 0x11;

/// ADPCM-A step sizes, indexed by the step index.
pub const ADPCM_A_STEPS: [i32; 49] = [
    16, 17, 19, 21, 23, 25, 28, 31, 34, 37, 41, 45, 50, 55, 60, 66, 73, 80, 88, 97, 107, 118, 130,
    143, 157, 173, 190, 209, 230, 253, 279, 307, 337, 371, 408, 449, 494, 544, 598, 658, 724, 796,
    876, 963, 1060, 1166, 1282, 1411, 1552,
];

/// How the ADPCM-A step index moves for each nibble magnitude.
pub const ADPCM_A_STEP_INCREMENT: [i32; 8] = [-1, -1, -1, -1, 2, 5, 7, 9];

/// ADPCM-B step scale factors (in 64ths) for each nibble magnitude.
pub const ADPCM_B_STEP_SCALE: [i32; 8] = [57, 57, 57, 57, 77, 102, 128, 153];

pub const ADPCM_B_STATUS_EOS: u32 = 0x01;
pub const ADPCM_B_STATUS_BRDY: u32 = 0x02;
pub const ADPCM_B_STATUS_PLAYING: u32 = 0x04;

/// `value` limited to `[minimum, maximum]`.
pub open spec fn clamp_spec(value: int, minimum: int, maximum: int) -> int {
    if value < minimum {
        minimum
    } else if value > maximum {
        maximum
    } else {
        value
    }
}

pub fn clamp_i32(value: i32, minimum: i32, maximum: i32) -> (clamped: i32)
    requires
        minimum <= maximum,
    ensures
        clamped == clamp_spec(value as int, minimum as int, maximum as int),
{
    if value < minimum {
        minimum
    } else if value > maximum {
        maximum
    } else {
        value
    }
}

/// The byte of sample memory at an address; reads past the end give zero.
pub open spec fn byte_at(memory: Seq<u8>, address: u32) -> u8 {
    if (address as int) < memory.len() { memory[address as int] } else { 0 }
}

fn read_byte(memory: &[u8], address: u32) -> (byte: u8)
    ensures
        byte == byte_at(memory@, address),
{
    let index = address as usize;
    if index < memory.len() {
        memory[index]
    } else {
        0
    }
}

fn copy_bytes(memory: &[u8]) -> (copy: Vec<u8>)
    ensures
        copy@ == memory@,
{
    let mut copy: Vec<u8> = Vec::new();
    let mut i: usize = 0;
    while i < memory.len()
        invariant
            i <= memory@.len(),
            copy@ == memory@.subrange(0, i as int),
        decreases memory@.len() - i,
    {
        copy.push(memory[i]);
        i = i + 1;
        proof { assert(copy@ =~= memory@.subrange(0, i as int)); }
    }
    proof { assert(memory@.subrange(0, memory@.len() as int) =~= memory@); }
    copy
}

/// Two register bytes combined as a little-endian 16-bit value.
pub open spec fn pair16(low: u8, high: u8) -> u32 {
    (low as int + high as int * 256) as u32
}

fn pack16(low: u8, high: u8) -> (value: u32)
    ensures
        value == pair16(low, high),
        value <= 0xffff,
{
    proof { crate::bits::lemma_u32_pack_bytes(high as u32, low as u32); }
    ((high as u32) << 8) | (low as u32)
}

// ----- ADPCM-A -----

/// The ADPCM-A register file after a reset: everything clear except the
/// per-channel pan/level registers, which read 0xdf.
pub open spec fn adpcm_a_reset_data() -> Seq<u8> {
    Seq::new(0x30, |i: int| if 0x08 <= i <= 0x0d { 0xdfu8 } else { 0u8 })
}

pub open spec fn a_total_level(d: Seq<u8>) -> u32 {
    (d[0x01] & 0x3f) as u32
}

pub open spec fn a_pan_left(d: Seq<u8>, channel: int) -> bool {
    d[channel + 0x08] & 0x80 != 0
}

pub open spec fn a_pan_right(d: Seq<u8>, channel: int) -> bool {
    d[channel + 0x08] & 0x40 != 0
}

pub open spec fn a_instrument_level(d: Seq<u8>, channel: int) -> u32 {
    (d[channel + 0x08] & 0x1f) as u32
}

pub open spec fn a_start(d: Seq<u8>, channel: int) -> u32 {
    pair16(d[channel + 0x10], d[channel + 0x18])
}

pub open spec fn a_end(d: Seq<u8>, channel: int) -> u32 {
    pair16(d[channel + 0x20], d[channel + 0x28])
}

/// The register file after a write; writes outside it are ignored.
pub open spec fn registers_stored(d: Seq<u8>, index: int, value: u8) -> Seq<u8> {
    if 0 <= index < d.len() { d.update(index, value) } else { d }
}

/// The ADPCM-A register file.
#[derive(Clone, Copy, Debug)]
pub struct AdpcmARegisters {
    pub data: [u8; 0x30],
}

impl AdpcmARegisters {
    pub fn new() -> (registers: Self)
        ensures
            registers.data@ == adpcm_a_reset_data(),
    {
        let mut registers = AdpcmARegisters { data: [0; 0x30] };
        registers.reset();
        registers
    }

    pub fn reset(&mut self)
        ensures
            final(self).data@ == adpcm_a_reset_data(),
    {
        self.data = [0; 0x30];
        let mut i: usize = 0x08;
        while i <= 0x0d
            invariant
                0x08 <= i <= 0x0e,
                forall|k: int| 0 <= k < 0x30 ==> #[trigger] self.data@[k]
                    == (if 0x08 <= k < i { 0xdfu8 } else { 0u8 }),
            decreases 0x0e - i,
        {
            self.data[i] = 0xdf;
            i = i + 1;
        }
        assert(self.data@ =~= adpcm_a_reset_data());
    }

    pub fn write(&mut self, index: usize, value: u8)
        ensures
            final(self).data@ == registers_stored(old(self).data@, index as int, value),
    {
        if index < ADPCM_A_REGISTERS {
            self.data[index] = value;
        }
    }

    pub fn dump(&self) -> (dump: bool)
        ensures
            dump == (self.data@[0x00] & 0x80 != 0),
    {
        self.data[0x00] & 0x80 != 0
    }

    pub fn dump_mask(&self) -> (mask: u32)
        ensures
            mask == (self.data@[0x00] & 0x3f) as u32,
    {
        (self.data[0x00] & 0x3f) as u32
    }

    pub fn total_level(&self) -> (level: u32)
        ensures
            level == a_total_level(self.data@),
    {
        (self.data[0x01] & 0x3f) as u32
    }

    pub fn ch_pan_left(&self, channel: usize) -> (left: bool)
        requires
            channel < 6,
        ensures
            left == a_pan_left(self.data@, channel as int),
    {
        self.data[channel + 0x08] & 0x80 != 0
    }

    pub fn ch_pan_right(&self, channel: usize) -> (right: bool)
        requires
            channel < 6,
        ensures
            right == a_pan_right(self.data@, channel as int),
    {
        self.data[channel + 0x08] & 0x40 != 0
    }

    pub fn ch_instrument_level(&self, channel: usize) -> (level: u32)
        requires
            channel < 6,
        ensures
            level == a_instrument_level(self.data@, channel as int),
    {
        (self.data[channel + 0x08] & 0x1f) as u32
    }

    pub fn ch_start(&self, channel: usize) -> (start: u32)
        requires
            channel < 6,
        ensures
            start == a_start(self.data@, channel as int),
            start <= 0xffff,
    {
        pack16(self.data[channel + 0x10], self.data[channel + 0x18])
    }

    pub fn ch_end(&self, channel: usize) -> (end: u32)
        requires
            channel < 6,
        ensures
            end == a_end(self.data@, channel as int),
            end <= 0xffff,
    {
        pack16(self.data[channel + 0x20], self.data[channel + 0x28])
    }

    pub fn write_start(&mut self, channel: usize, address: u16)
        requires
            channel < 6,
        ensures
            final(self).data@ == old(self).data@.update(channel + 0x10, (address % 256) as u8).update(
                channel + 0x18,
                (address / 256) as u8,
            ),
            a_start(final(self).data@, channel as int) == address,
    {
        self.write(channel + 0x10, (address % 256) as u8);
        self.write(channel + 0x18, (address / 256) as u8);
    }

    pub fn write_end(&mut self, channel: usize, address: u16)
        requires
            channel < 6,
        ensures
            final(self).data@ == old(self).data@.update(channel + 0x20, (address % 256) as u8).update(
                channel + 0x28,
                (address / 256) as u8,
            ),
            a_end(final(self).data@, channel as int) == address,
    {
        self.write(channel + 0x20, (address % 256) as u8);
        self.write(channel + 0x28, (address / 256) as u8);
    }
}

/// One ADPCM-A voice decoding 4-bit samples from sample memory.
#[derive(Clone, Copy, Debug)]
pub struct AdpcmAChannel {
    pub channel: usize,
    pub address_shift: u32,
    pub playing: bool,
    pub current_nibble: u32,
    pub current_byte: u8,
    pub current_address: u32,
    pub accumulator: i32,
    pub step_index: i32,
}

/// The signed change a nibble makes at a step index.
pub open spec fn a_delta(data: u8, step_index: i32) -> int {
    let magnitude = (2 * (data & 7) + 1) * ADPCM_A_STEPS@[step_index as int] / 8;
    if data & 8 != 0 { -magnitude } else { magnitude }
}

/// A channel after decoding one nibble: the 12-bit accumulator wraps, the
/// step index moves and stays within the table.
pub open spec fn a_decoded(ch: AdpcmAChannel, data: u8) -> AdpcmAChannel {
    AdpcmAChannel {
        accumulator: ((ch.accumulator + a_delta(data, ch.step_index)) as i32) & 0x0fff,
        step_index: clamp_spec(ch.step_index + ADPCM_A_STEP_INCREMENT@[(data & 7) as int], 0, 48) as i32,
        ..ch
    }
}

/// The address one past the last byte of a channel's sample.
pub open spec fn a_end_address(ch: AdpcmAChannel, d: Seq<u8>) -> u32 {
    vstd::wrapping::u32_specs::wrapping_shl(
        vstd::wrapping::u32_specs::wrapping_add(a_end(d, ch.channel as int), 1),
        ch.address_shift,
    )
}

/// A channel after one sample clock, and whether it reached its end.
pub open spec fn a_clocked(ch: AdpcmAChannel, d: Seq<u8>, memory: Seq<u8>) -> (AdpcmAChannel, bool) {
    if !ch.playing {
        (AdpcmAChannel { accumulator: 0, ..ch }, false)
    } else if ch.current_nibble == 0 {
        if (ch.current_address ^ a_end_address(ch, d)) & 0x0f_ffff == 0 {
            (AdpcmAChannel { playing: false, accumulator: 0, ..ch }, true)
        } else {
            let byte = byte_at(memory, ch.current_address);
            let loaded = AdpcmAChannel {
                current_byte: byte,
                current_address: vstd::wrapping::u32_specs::wrapping_add(ch.current_address, 1),
                current_nibble: 1,
                ..ch
            };
            (a_decoded(loaded, byte / 16), false)
        }
    } else {
        (a_decoded(AdpcmAChannel { current_nibble: 0, ..ch }, ch.current_byte & 0x0f), false)
    }
}

/// A channel after a key-on (which restarts it at its start address) or a
/// key-off.
pub open spec fn a_keyed(ch: AdpcmAChannel, on: bool, d: Seq<u8>) -> AdpcmAChannel {
    if on {
        AdpcmAChannel {
            playing: true,
            current_address: vstd::wrapping::u32_specs::wrapping_shl(a_start(d, ch.channel as int), ch.address_shift),
            current_nibble: 0,
            current_byte: 0,
            accumulator: 0,
            step_index: 0,
            ..ch
        }
    } else {
        AdpcmAChannel { playing: false, ..ch }
    }
}

/// The signed 16-bit sample held by a 12-bit accumulator.
pub open spec fn a_signed(accumulator: i32) -> int {
    if accumulator < 0x800 { accumulator * 16 } else { accumulator * 16 - 0x10000 }
}

/// The combined attenuation of a channel, in 0.75 dB steps.
pub open spec fn a_volume(d: Seq<u8>, channel: int) -> u32 {
    (94 - a_instrument_level(d, channel) - a_total_level(d)) as u32
}

/// What a channel adds to each side of the output.
pub open spec fn a_sample(ch: AdpcmAChannel, d: Seq<u8>) -> i32 {
    let volume = a_volume(d, ch.channel as int);
    if volume >= 63 {
        0
    } else {
        let multiplier = 15 - (volume % 8);
        let shift = 5 + volume / 8;
        (((a_signed(ch.accumulator) * multiplier) as i32) >> (shift as u32)) & !3i32
    }
}

pub open spec fn a_left(ch: AdpcmAChannel, d: Seq<u8>) -> int {
    if a_pan_left(d, ch.channel as int) { a_sample(ch, d) as int } else { 0 }
}

pub open spec fn a_right(ch: AdpcmAChannel, d: Seq<u8>) -> int {
    if a_pan_right(d, ch.channel as int) { a_sample(ch, d) as int } else { 0 }
}

proof fn lemma_steps_bounded(index: int)
    requires
        0 <= index < 49,
    ensures
        16 <= ADPCM_A_STEPS@[index] <= 1552,
{
    assert(forall|i: int| 0 <= i < 49 ==> 16 <= #[trigger] ADPCM_A_STEPS@[i] <= 1552);
}

proof fn lemma_a_sample_bound(ch: AdpcmAChannel, d: Seq<u8>)
    requires
        ch.wf(),
    ensures
        -15364 <= a_sample(ch, d) <= 15360,
{
    let volume = a_volume(d, ch.channel as int);
    if volume < 63 {
        let multiplier = 15 - (volume % 8);
        let signed = a_signed(ch.accumulator);
        assert(-491520 <= signed * multiplier <= 491520) by (nonlinear_arith)
            requires -32768 <= signed <= 32752, 8 <= multiplier <= 15;
        lemma_a_scale((signed * multiplier) as i32, (5 + volume / 8) as u32);
    }
}

proof fn lemma_a_scale(x: i32, s: u32)
    by (bit_vector)
    requires
        -491520 <= x <= 491520,
        5 <= s <= 12,
    ensures
        -15364 <= ((x >> s) & !3i32) <= 15360,
{
}

proof fn lemma_low12(x: i32)
    by (bit_vector)
    ensures
        0 <= (x & 0x0fff) <= 0x0fff,
{
}

proof fn lemma_xor_complement(x: u32, m: u32)
    by (bit_vector)
    requires
        m == 0x1f || m == 0x3f,
        x <= m,
    ensures
        x ^ m == m - x,
{
}

impl AdpcmAChannel {
    pub open spec fn wf(&self) -> bool {
        &&& self.channel < 6
        &&& self.address_shift < 32
        &&& self.current_nibble <= 1
        &&& 0 <= self.accumulator <= 0x0fff
        &&& 0 <= self.step_index <= 48
    }

    pub fn new(channel: usize, address_shift: u32) -> (ch: Self)
        ensures
            ch == (AdpcmAChannel {
                channel,
                address_shift,
                playing: false,
                current_nibble: 0,
                current_byte: 0,
                current_address: 0,
                accumulator: 0,
                step_index: 0,
            }),
    {
        AdpcmAChannel {
            channel,
            address_shift,
            playing: false,
            current_nibble: 0,
            current_byte: 0,
            current_address: 0,
            accumulator: 0,
            step_index: 0,
        }
    }

    pub fn reset(&mut self)
        ensures
            *final(self) == (AdpcmAChannel {
                playing: false,
                current_nibble: 0,
                current_byte: 0,
                current_address: 0,
                accumulator: 0,
                step_index: 0,
                ..*old(self)
            }),
    {
        self.playing = false;
        self.current_nibble = 0;
        self.current_byte = 0;
        self.current_address = 0;
        self.accumulator = 0;
        self.step_index = 0;
    }

    pub fn key_on_off(&mut self, on: bool, registers: &AdpcmARegisters)
        requires
            old(self).wf(),
        ensures
            final(self).wf(),
            *final(self) == a_keyed(*old(self), on, registers.data@),
    {
        self.playing = on;
        if on {
            self.current_address = registers.ch_start(self.channel) << self.address_shift;
            self.current_nibble = 0;
            self.current_byte = 0;
            self.accumulator = 0;
            self.step_index = 0;
        }
    }

    fn decode(&mut self, data: u8)
        requires
            old(self).wf(),
            data < 16,
        ensures
            final(self).wf(),
            *final(self) == a_decoded(*old(self), data),
    {
        proof { lemma_steps_bounded(self.step_index as int); }
        let step = ADPCM_A_STEPS[self.step_index as usize];
        let nibble = (data & 7) as i32;
        assert(0 <= (2 * nibble + 1) * step <= 23280) by (nonlinear_arith)
            requires 0 <= nibble <= 7, 16 <= step <= 1552;
        let magnitude = (2 * (data & 7) as i32 + 1) * ADPCM_A_STEPS[self.step_index as usize] / 8;
        let delta = if data & 8 != 0 { -magnitude } else { magnitude };
        proof { lemma_low12((self.accumulator + delta) as i32); }
        self.accumulator = (self.accumulator + delta) & 0x0fff;
        self.step_index = clamp_i32(self.step_index + ADPCM_A_STEP_INCREMENT[(data & 7) as usize], 0, 48);
    }

    /// Decodes the next nibble; returns true when the channel reaches the end
    /// of its sample and stops.
    pub fn clock(&mut self, registers: &AdpcmARegisters, memory: &[u8]) -> (finished: bool)
        requires
            old(self).wf(),
        ensures
            final(self).wf(),
            (*final(self), finished) == a_clocked(*old(self), registers.data@, memory@),
    {
        if !self.playing {
            self.accumulator = 0;
            return false;
        }
        if self.current_nibble == 0 {
            let end = registers.ch_end(self.channel).wrapping_add(1).wrapping_shl(self.address_shift);
            if (self.current_address ^ end) & 0x0f_ffff == 0 {
                self.playing = false;
                self.accumulator = 0;
                return true;
            }
            self.current_byte = read_byte(memory, self.current_address);
            self.current_address = self.current_address.wrapping_add(1);
            self.current_nibble = 1;
            let data = self.current_byte / 16;
            self.decode(data);
        } else {
            self.current_nibble = 0;
            let data = self.current_byte & 0x0f;
            self.decode(data);
        }
        false
    }

    /// Adds the channel's sample to the sides it is panned to.
    pub fn output(&self, registers: &AdpcmARegisters, output: &mut [i32; 2])
        requires
            self.wf(),
            -0x4000_0000 <= old(output)@[0] <= 0x4000_0000,
            -0x4000_0000 <= old(output)@[1] <= 0x4000_0000,
        ensures
            final(output)@[0] == old(output)@[0] + a_left(*self, registers.data@),
            final(output)@[1] == old(output)@[1] + a_right(*self, registers.data@),
            -15364 <= a_sample(*self, registers.data@) <= 15360,
    {
        let level = registers.ch_instrument_level(self.channel);
        let total = registers.total_level();
        proof {
            lemma_xor_complement(level, 0x1f);
            lemma_xor_complement(total, 0x3f);
        }
        let volume = (level ^ 0x1f) + (total ^ 0x3f);
        if volume >= 63 {
            return;
        }
        let multiplier = 15 - (volume & 7) as i32;
        let shift = 5 + (volume >> 3);
        assert((volume & 7) == volume % 8 && (volume >> 3) == volume / 8) by (bit_vector)
            requires volume < 63;
        let shifted = self.accumulator * 16;
        let signed = if shifted >= 0x8000 { shifted - 0x10000 } else { shifted };
        assert(-491520 <= signed * multiplier <= 491520) by (nonlinear_arith)
            requires -32768 <= signed <= 32752, 8 <= multiplier <= 15;
        proof { lemma_a_scale((signed * multiplier) as i32, shift); }
        let value = ((signed * multiplier) >> shift) & !3;
        if registers.ch_pan_left(self.channel) {
            output[0] = output[0] + value;
        }
        if registers.ch_pan_right(self.channel) {
            output[1] = output[1] + value;
        }
    }
}

/// The sum of what the channels below `count` in `mask` add to one side.
pub open spec fn a_mix(channels: Seq<AdpcmAChannel>, d: Seq<u8>, mask: u32, count: int, right: bool) -> int
    decreases count,
{
    if count <= 0 {
        0
    } else {
        let c = count - 1;
        a_mix(channels, d, mask, c, right) + if mask_has(mask, c) {
            if right { a_right(channels[c], d) } else { a_left(channels[c], d) }
        } else {
            0
        }
    }
}

pub proof fn lemma_a_mix_bound(channels: Seq<AdpcmAChannel>, d: Seq<u8>, mask: u32, count: int, right: bool)
    requires
        0 <= count <= channels.len(),
        forall|c: int| 0 <= c < channels.len() ==> (#[trigger] channels[c]).wf(),
    ensures
        -15364 * count <= a_mix(channels, d, mask, count, right) <= 15360 * count,
    decreases count,
{
    if count > 0 {
        lemma_a_mix_bound(channels, d, mask, count - 1, right);
        lemma_a_sample_bound(channels[count - 1], d);
    }
}

/// The six ADPCM-A rhythm voices with their sample memory.
#[derive(Clone, Debug)]
pub struct AdpcmAEngine {
    pub registers: AdpcmARegisters,
    pub channels: [AdpcmAChannel; 6],
    pub memory: Vec<u8>,
}

impl AdpcmAEngine {
    pub open spec fn wf(&self) -> bool {
        forall|c: int| 0 <= c < 6 ==> {
            &&& (#[trigger] self.channels@[c]).wf()
            &&& self.channels@[c].channel == c
            &&& self.channels@[c].address_shift == 0
        }
    }

    pub fn new() -> (engine: Self)
        ensures
            engine.wf(),
            engine.registers.data@ == adpcm_a_reset_data(),
            engine.memory@.len() == 0,
            forall|c: int| 0 <= c < 6 ==> !(#[trigger] engine.channels@[c]).playing,
    {
        let mut engine = AdpcmAEngine {
            registers: AdpcmARegisters::new(),
            channels: [
                AdpcmAChannel::new(0, 0),
                AdpcmAChannel::new(1, 0),
                AdpcmAChannel::new(2, 0),
                AdpcmAChannel::new(3, 0),
                AdpcmAChannel::new(4, 0),
                AdpcmAChannel::new(5, 0),
            ],
            memory: Vec::new(),
        };
        engine.reset();
        engine
    }

    /// Resets the registers and every voice; the sample memory stays.
    pub fn reset(&mut self)
        requires
            old(self).wf(),
        ensures
            final(self).wf(),
            final(self).registers.data@ == adpcm_a_reset_data(),
            final(self).memory@ == old(self).memory@,
            forall|c: int| 0 <= c < 6 ==> #[trigger] final(self).channels@[c] == (AdpcmAChannel {
                playing: false,
                current_nibble: 0,
                current_byte: 0,
                current_address: 0,
                accumulator: 0,
                step_index: 0,
                ..old(self).channels@[c]
            }),
    {
        self.registers.reset();
        let mut i: usize = 0;
        while i < ADPCM_A_CHANNELS
            invariant
                0 <= i <= 6,
                self.wf(),
                self.registers.data@ == adpcm_a_reset_data(),
                self.memory@ == old(self).memory@,
                forall|c: int| 0 <= c < i ==> #[trigger] self.channels@[c] == (AdpcmAChannel {
                    playing: false,
                    current_nibble: 0,
                    current_byte: 0,
                    current_address: 0,
                    accumulator: 0,
                    step_index: 0,
                    ..old(self).channels@[c]
                }),
                forall|c: int| i <= c < 6 ==> #[trigger] self.channels@[c] == old(self).channels@[c],
            decreases 6 - i,
        {
            let mut ch = self.channels[i];
            ch.reset();
            self.channels[i] = ch;
            i = i + 1;
        }
    }

    pub fn set_memory(&mut self, memory: &[u8])
        ensures
            final(self).memory@ == memory@,
            final(self).registers == old(self).registers,
            final(self).channels == old(self).channels,
    {
        self.memory = copy_bytes(memory);
    }

    /// Sets a voice's start and end addresses; other channel numbers are ignored.
    pub fn set_start_end(&mut self, channel: usize, start: u16, end: u16)
        requires
            old(self).wf(),
        ensures
            final(self).wf(),
            final(self).channels == old(self).channels,
            final(self).memory@ == old(self).memory@,
            channel < 6 ==> final(self).registers.data@ == old(self).registers.data@
                .update(channel + 0x10, (start % 256) as u8)
                .update(channel + 0x18, (start / 256) as u8)
                .update(channel + 0x20, (end % 256) as u8)
                .update(channel + 0x28, (end / 256) as u8),
            channel >= 6 ==> final(self).registers == old(self).registers,
    {
        if channel < ADPCM_A_CHANNELS {
            self.registers.write_start(channel, start);
            self.registers.write_end(channel, end);
        }
    }

    /// Stores a register; a write to register 0 keys the voices in its low six
    /// bits on (bit 7 clear) or off (bit 7 set).
    pub fn write(&mut self, register: usize, data: u8)
        requires
            old(self).wf(),
        ensures
            final(self).wf(),
            final(self).registers.data@ == registers_stored(old(self).registers.data@, register as int, data),
            final(self).memory@ == old(self).memory@,
            forall|c: int| 0 <= c < 6 ==> #[trigger] final(self).channels@[c]
                == (if register == 0 && mask_has(data as u32, c) {
                    a_keyed(old(self).channels@[c], data & 0x80 == 0, final(self).registers.data@)
                } else {
                    old(self).channels@[c]
                }),
    {
        self.registers.write(register, data);
        if register == 0x00 {
            let mut i: usize = 0;
            while i < ADPCM_A_CHANNELS
                invariant
                    0 <= i <= 6,
                    register == 0,
                    self.wf(),
                    self.registers.data@ == registers_stored(old(self).registers.data@, register as int, data),
                    self.memory@ == old(self).memory@,
                    forall|c: int| 0 <= c < i ==> #[trigger] self.channels@[c]
                        == (if mask_has(data as u32, c) {
                            a_keyed(old(self).channels@[c], data & 0x80 == 0, self.registers.data@)
                        } else {
                            old(self).channels@[c]
                        }),
                    forall|c: int| i <= c < 6 ==> #[trigger] self.channels@[c] == old(self).channels@[c],
                decreases 6 - i,
            {
                if (data as u32) & (1u32 << i as u32) != 0 {
                    let mut ch = self.channels[i];
                    ch.key_on_off(data & 0x80 == 0, &self.registers);
                    self.channels[i] = ch;
                }
                i = i + 1;
            }
        }
    }

    /// Clocks the voices in the mask; the result has a bit set for each voice
    /// that reached its end on this clock.
    pub fn clock(&mut self, channel_mask: u32) -> (finished: u32)
        requires
            old(self).wf(),
        ensures
            final(self).wf(),
            final(self).registers == old(self).registers,
            final(self).memory@ == old(self).memory@,
            forall|c: int| 0 <= c < 6 ==> #[trigger] final(self).channels@[c]
                == (if mask_has(channel_mask, c) {
                    a_clocked(old(self).channels@[c], old(self).registers.data@, old(self).memory@).0
                } else {
                    old(self).channels@[c]
                }),
            forall|c: int| 0 <= c < 6 ==> (#[trigger] mask_has(finished, c)
                <==> (mask_has(channel_mask, c)
                    && a_clocked(old(self).channels@[c], old(self).registers.data@, old(self).memory@).1)),
            finished < 64,
    {
        let mut finished: u32 = 0;
        proof {
            assert forall|c: int| 0 <= c < 6 implies !#[trigger] mask_has(finished, c) by {
                lemma_empty_mask(c as u32);
            }
        }
        let mut i: usize = 0;
        while i < ADPCM_A_CHANNELS
            invariant
                0 <= i <= 6,
                self.wf(),
                self.registers == old(self).registers,
                self.memory@ == old(self).memory@,
                finished <= 63,
                forall|c: int| 0 <= c < i ==> #[trigger] self.channels@[c]
                    == (if mask_has(channel_mask, c) {
                        a_clocked(old(self).channels@[c], old(self).registers.data@, old(self).memory@).0
                    } else {
                        old(self).channels@[c]
                    }),
                forall|c: int| 0 <= c < i ==> (#[trigger] mask_has(finished, c)
                    <==> (mask_has(channel_mask, c)
                        && a_clocked(old(self).channels@[c], old(self).registers.data@, old(self).memory@).1)),
                forall|c: int| i <= c < 6 ==> !#[trigger] mask_has(finished, c),
                forall|c: int| i <= c < 6 ==> #[trigger] self.channels@[c] == old(self).channels@[c],
            decreases 6 - i,
        {
            let ghost before = finished;
            let ghost mut hit = false;
            proof { lemma_mask_step(before, i as u32); }
            if channel_mask & (1u32 << i as u32) != 0 {
                let mut ch = self.channels[i];
                let done = ch.clock(&self.registers, self.memory.as_slice());
                self.channels[i] = ch;
                if done {
                    finished = finished | (1u32 << i as u32);
                }
                proof { hit = done; }
            }
            proof {
                assert forall|c: int| 0 <= c < 6 implies #[trigger] mask_has(finished, c)
                    == (mask_has(before, c) || (c == i && hit)) by {
                    lemma_set_bit(before, i as u32, c as u32);
                }
            }
            i = i + 1;
        }
        finished
    }

    /// Adds the masked voices' samples to the output.
    pub fn output(&self, output: &mut [i32; 2], channel_mask: u32)
        requires
            self.wf(),
            -0x3000_0000 <= old(output)@[0] <= 0x3000_0000,
            -0x3000_0000 <= old(output)@[1] <= 0x3000_0000,
        ensures
            final(output)@[0] == old(output)@[0] + a_mix(self.channels@, self.registers.data@, channel_mask, 6, false),
            final(output)@[1] == old(output)@[1] + a_mix(self.channels@, self.registers.data@, channel_mask, 6, true),
    {
        let mut i: usize = 0;
        while i < ADPCM_A_CHANNELS
            invariant
                0 <= i <= 6,
                self.wf(),
                -0x3000_0000 <= old(output)@[0] <= 0x3000_0000,
                -0x3000_0000 <= old(output)@[1] <= 0x3000_0000,
                output@[0] == old(output)@[0] + a_mix(self.channels@, self.registers.data@, channel_mask, i as int, false),
                output@[1] == old(output)@[1] + a_mix(self.channels@, self.registers.data@, channel_mask, i as int, true),
            decreases 6 - i,
        {
            proof {
                lemma_a_mix_bound(self.channels@, self.registers.data@, channel_mask, i as int, false);
                lemma_a_mix_bound(self.channels@, self.registers.data@, channel_mask, i as int, true);
            }
            if channel_mask & (1u32 << i as u32) != 0 {
                self.channels[i].output(&self.registers, output);
            }
            i = i + 1;
        }
    }

    pub fn dump_register(&self) -> (dump: bool)
        ensures
            dump == (self.registers.data@[0x00] & 0x80 != 0),
    {
        self.registers.dump()
    }

    pub fn dump_mask(&self) -> (mask: u32)
        ensures
            mask == (self.registers.data@[0x00] & 0x3f) as u32,
    {
        self.registers.dump_mask()
    }
}

proof fn lemma_set_bit(before: u32, i: u32, c: u32)
    by (bit_vector)
    requires
        i < 32,
        c < 32,
    ensures
        ((before | (1u32 << i)) & (1u32 << c) != 0) == ((before & (1u32 << c) != 0) || c == i),
{
}

proof fn lemma_mask_step(f: u32, i: u32)
    by (bit_vector)
    requires
        f <= 63,
        i < 6,
    ensures
        (f | (1u32 << i)) <= 63,
{
}

proof fn lemma_empty_mask(c: u32)
    by (bit_vector)
    ensures
        0u32 & (1u32 << c) == 0,
{
}


// ----- ADPCM-B -----

/// The ADPCM-B register file after a reset: everything clear except the
/// limit address, which reads 0xffff.
pub open spec fn adpcm_b_reset_data() -> Seq<u8> {
    Seq::new(0x11, |i: int| if i == 0x0c || i == 0x0d { 0xffu8 } else { 0u8 })
}

pub open spec fn b_execute(d: Seq<u8>) -> bool { d[0x00] & 0x80 != 0 }
pub open spec fn b_record(d: Seq<u8>) -> bool { d[0x00] & 0x40 != 0 }
pub open spec fn b_external(d: Seq<u8>) -> bool { d[0x00] & 0x20 != 0 }
pub open spec fn b_repeat(d: Seq<u8>) -> bool { d[0x00] & 0x10 != 0 }
pub open spec fn b_reset_flag(d: Seq<u8>) -> bool { d[0x00] & 0x01 != 0 }
pub open spec fn b_pan_left(d: Seq<u8>) -> bool { d[0x01] & 0x80 != 0 }
pub open spec fn b_pan_right(d: Seq<u8>) -> bool { d[0x01] & 0x40 != 0 }
pub open spec fn b_dram_8bit(d: Seq<u8>) -> bool { d[0x01] & 0x02 != 0 }
pub open spec fn b_rom_ram(d: Seq<u8>) -> bool { d[0x01] & 0x01 != 0 }
pub open spec fn b_start(d: Seq<u8>) -> u32 { pair16(d[0x02], d[0x03]) }
pub open spec fn b_end(d: Seq<u8>) -> u32 { pair16(d[0x04], d[0x05]) }
pub open spec fn b_delta_n(d: Seq<u8>) -> u32 { pair16(d[0x09], d[0x0a]) }
pub open spec fn b_level(d: Seq<u8>) -> u32 { d[0x0b] as u32 }
pub open spec fn b_limit(d: Seq<u8>) -> u32 { pair16(d[0x0c], d[0x0d]) }

/// The ADPCM-B register file.
#[derive(Clone, Copy, Debug)]
pub struct AdpcmBRegisters {
    pub data: [u8; 0x11],
}

impl AdpcmBRegisters {
    pub fn new() -> (registers: Self)
        ensures
            registers.data@ == adpcm_b_reset_data(),
    {
        let mut registers = AdpcmBRegisters { data: [0; 0x11] };
        registers.reset();
        registers
    }

    pub fn reset(&mut self)
        ensures
            final(self).data@ == adpcm_b_reset_data(),
    {
        self.data = [0; 0x11];
        self.data[0x0c] = 0xff;
        self.data[0x0d] = 0xff;
        assert(self.data@ =~= adpcm_b_reset_data());
    }

    pub fn write(&mut self, index: usize, value: u8)
        ensures
            final(self).data@ == registers_stored(old(self).data@, index as int, value),
    {
        if index < ADPCM_B_REGISTERS {
            self.data[index] = value;
        }
    }

    pub fn execute(&self) -> (r: bool) ensures r == b_execute(self.data@), { self.data[0x00] & 0x80 != 0 }
    pub fn record(&self) -> (r: bool) ensures r == b_record(self.data@), { self.data[0x00] & 0x40 != 0 }
    pub fn external(&self) -> (r: bool) ensures r == b_external(self.data@), { self.data[0x00] & 0x20 != 0 }
    pub fn repeat(&self) -> (r: bool) ensures r == b_repeat(self.data@), { self.data[0x00] & 0x10 != 0 }
    pub fn pan_left(&self) -> (r: bool) ensures r == b_pan_left(self.data@), { self.data[0x01] & 0x80 != 0 }
    pub fn pan_right(&self) -> (r: bool) ensures r == b_pan_right(self.data@), { self.data[0x01] & 0x40 != 0 }
    pub fn reset_flag(&self) -> (r: bool) ensures r == b_reset_flag(self.data@), { self.data[0x00] & 0x01 != 0 }
    pub fn dram_8bit(&self) -> (r: bool) ensures r == b_dram_8bit(self.data@), { self.data[0x01] & 0x02 != 0 }
    pub fn rom_ram(&self) -> (r: bool) ensures r == b_rom_ram(self.data@), { self.data[0x01] & 0x01 != 0 }

    pub fn start(&self) -> (r: u32)
        ensures
            r == b_start(self.data@),
    {
        pack16(self.data[0x02], self.data[0x03])
    }

    pub fn end(&self) -> (r: u32)
        ensures
            r == b_end(self.data@),
    {
        pack16(self.data[0x04], self.data[0x05])
    }

    pub fn delta_n(&self) -> (r: u32)
        ensures
            r == b_delta_n(self.data@),
            r <= 0xffff,
    {
        pack16(self.data[0x09], self.data[0x0a])
    }

    pub fn level(&self) -> (r: u32)
        ensures
            r == b_level(self.data@),
    {
        self.data[0x0b] as u32
    }

    pub fn limit(&self) -> (r: u32)
        ensures
            r == b_limit(self.data@),
    {
        pack16(self.data[0x0c], self.data[0x0d])
    }

    pub fn cpudata(&self) -> (r: u8)
        ensures
            r == self.data@[0x08],
    {
        self.data[0x08]
    }
}

/// The ADPCM-B voice: a 4-bit ADPCM decoder with interpolated output that
/// plays from sample memory or from bytes the CPU feeds it.
#[derive(Clone, Copy, Debug)]
pub struct AdpcmBChannel {
    pub address_shift_constant: u32,
    pub status: u32,
    pub current_nibble: u32,
    pub current_byte: u8,
    pub dummy_read: u32,
    pub position: u32,
    pub current_address: u32,
    pub accumulator: i32,
    pub previous_accumulator: i32,
    pub adpcm_step: i32,
}

/// A fresh ADPCM-B voice state with the given address shift.
pub open spec fn b_initial(address_shift_constant: u32) -> AdpcmBChannel {
    AdpcmBChannel {
        address_shift_constant,
        status: ADPCM_B_STATUS_BRDY,
        current_nibble: 0,
        current_byte: 0,
        dummy_read: 0,
        position: 0,
        current_address: 0,
        accumulator: 0,
        previous_accumulator: 0,
        adpcm_step: 127,
    }
}

/// The shift from register addresses to byte addresses.
pub open spec fn b_address_shift(ch: AdpcmBChannel, d: Seq<u8>) -> u32 {
    if ch.address_shift_constant != 0 {
        ch.address_shift_constant
    } else if b_rom_ram(d) || b_dram_8bit(d) {
        5
    } else {
        2
    }
}

/// The last byte address of the block ending at register address `value`.
pub open spec fn b_last_address(value: u32, shift: u32) -> u32 {
    vstd::wrapping::u32_specs::wrapping_sub(
        vstd::wrapping::u32_specs::wrapping_shl(vstd::wrapping::u32_specs::wrapping_add(value, 1), shift),
        1,
    )
}

pub open spec fn b_at_limit(ch: AdpcmBChannel, d: Seq<u8>) -> bool {
    ch.current_address == b_last_address(b_limit(d), b_address_shift(ch, d))
}

pub open spec fn b_at_end(ch: AdpcmBChannel, d: Seq<u8>) -> bool {
    ch.current_address == b_last_address(b_end(d), b_address_shift(ch, d))
}

/// A voice restarted at its start address (address 0 in CPU mode).
pub open spec fn b_load_start(ch: AdpcmBChannel, d: Seq<u8>) -> AdpcmBChannel {
    AdpcmBChannel {
        status: (ch.status & !ADPCM_B_STATUS_EOS) | ADPCM_B_STATUS_PLAYING,
        current_address: if b_external(d) {
            vstd::wrapping::u32_specs::wrapping_shl(b_start(d), b_address_shift(ch, d))
        } else {
            0
        },
        current_nibble: 0,
        current_byte: 0,
        position: 0,
        accumulator: 0,
        previous_accumulator: 0,
        adpcm_step: 127,
        ..ch
    }
}

/// A voice after decoding one nibble: the accumulator saturates at 16 bits
/// and the step scales within `[127, 24576]`.
pub open spec fn b_decoded(ch: AdpcmBChannel, data: u8) -> AdpcmBChannel {
    let magnitude = (2 * (data & 7) + 1) * ch.adpcm_step / 8;
    let delta = if data & 8 != 0 { -magnitude } else { magnitude };
    AdpcmBChannel {
        previous_accumulator: ch.accumulator,
        accumulator: clamp_spec(ch.accumulator + delta, -32768, 32767) as i32,
        adpcm_step: clamp_spec(ch.adpcm_step * ADPCM_B_STEP_SCALE@[(data & 7) as int] / 64, 127, 24576) as i32,
        ..ch
    }
}

/// A voice after one sample clock.
pub open spec fn b_clocked(ch: AdpcmBChannel, d: Seq<u8>, memory: Seq<u8>) -> AdpcmBChannel {
    if !b_execute(d) || b_record(d) || ch.status & ADPCM_B_STATUS_PLAYING == 0 {
        AdpcmBChannel { status: ch.status & !ADPCM_B_STATUS_PLAYING, ..ch }
    } else {
        let position = ch.position + b_delta_n(d);
        let moved = AdpcmBChannel { position: (position % 0x10000) as u32, ..ch };
        if position < 0x10000 {
            moved
        } else {
            let fetched = if moved.current_nibble == 0 && b_external(d) {
                AdpcmBChannel { current_byte: byte_at(memory, moved.current_address), ..moved }
            } else {
                moved
            };
            let data = if fetched.current_nibble == 0 { fetched.current_byte / 16 } else { fetched.current_byte % 16 };
            let flipped = AdpcmBChannel { current_nibble: (1 - fetched.current_nibble) as u32, ..fetched };
            if flipped.current_nibble != 0 {
                b_decoded(flipped, data)
            } else if !b_external(d) {
                b_decoded(
                    AdpcmBChannel {
                        current_byte: d[0x08],
                        status: flipped.status | ADPCM_B_STATUS_BRDY,
                        ..flipped
                    },
                    data,
                )
            } else if b_at_end(flipped, d) {
                if b_repeat(d) {
                    b_decoded(b_load_start(flipped, d), data)
                } else {
                    AdpcmBChannel {
                        accumulator: 0,
                        previous_accumulator: 0,
                        status: (flipped.status & !ADPCM_B_STATUS_PLAYING) | ADPCM_B_STATUS_EOS,
                        ..flipped
                    }
                }
            } else if b_at_limit(flipped, d) {
                b_decoded(AdpcmBChannel { current_address: 0, ..flipped }, data)
            } else {
                b_decoded(
                    AdpcmBChannel {
                        current_address: vstd::wrapping::u32_specs::wrapping_add(flipped.current_address, 1)
                            & 0x00ff_ffff,
                        ..flipped
                    },
                    data,
                )
            }
        }
    }
}

/// The interpolated, level-scaled output sample of a voice.
pub open spec fn b_sample(ch: AdpcmBChannel, d: Seq<u8>, right_shift: u32) -> i32 {
    let weight = 0x10000 - ch.position;
    let mixed = ((ch.previous_accumulator * weight + ch.accumulator * ch.position) as i32) >> 16u32;
    ((mixed * b_level(d)) as i32) >> ((8 + right_shift) as u32)
}

/// A read of the CPU data register and the voice afterwards; outside CPU
/// reads of external memory the result is zero and nothing changes.
pub open spec fn b_read(ch: AdpcmBChannel, d: Seq<u8>, memory: Seq<u8>, register: int) -> (AdpcmBChannel, u8) {
    if register != 0x08 || b_execute(d) || b_record(d) || !b_external(d) {
        (ch, 0)
    } else if ch.dummy_read != 0 {
        (AdpcmBChannel { dummy_read: (ch.dummy_read - 1) as u32, ..b_load_start(ch, d) }, 0)
    } else {
        let advanced = AdpcmBChannel {
            current_address: vstd::wrapping::u32_specs::wrapping_add(ch.current_address, 1),
            ..ch
        };
        let flagged = AdpcmBChannel {
            status: if b_at_end(advanced, d) {
                ADPCM_B_STATUS_EOS | ADPCM_B_STATUS_BRDY
            } else {
                ADPCM_B_STATUS_BRDY
            },
            ..advanced
        };
        let wrapped = if b_at_limit(flagged, d) { AdpcmBChannel { current_address: 0, ..flagged } } else { flagged };
        (wrapped, byte_at(memory, ch.current_address))
    }
}

/// Sample memory after the CPU stores a byte at an address, growing it with
/// zeros when the address lies past its end.
pub open spec fn memory_stored(memory: Seq<u8>, address: u32, value: u8) -> Seq<u8> {
    if (address as int) < memory.len() {
        memory.update(address as int, value)
    } else if address as int >= usize::MAX {
        memory
    } else {
        Seq::new((address + 1) as nat, |i: int| if i == address { value } else if i < memory.len() { memory[i] } else { 0u8 })
    }
}

/// A voice and its memory after a register write (the register file already
/// holds the new value).
pub open spec fn b_written(ch: AdpcmBChannel, d: Seq<u8>, memory: Seq<u8>, register: int, value: u8) -> (AdpcmBChannel, Seq<u8>) {
    if register == 0x00 {
        let started = if b_execute(d) {
            b_load_start(ch, d)
        } else {
            AdpcmBChannel { status: ch.status & !ADPCM_B_STATUS_EOS, ..ch }
        };
        let cleared = if b_reset_flag(d) { b_initial(started.address_shift_constant) } else { started };
        (if b_external(d) { AdpcmBChannel { dummy_read: 2, ..cleared } } else { cleared }, memory)
    } else if register == 0x08 {
        if b_execute(d) && !b_record(d) && !b_external(d) {
            (AdpcmBChannel { status: ch.status & !ADPCM_B_STATUS_BRDY, ..ch }, memory)
        } else if !b_execute(d) && b_record(d) && b_external(d) {
            let primed = if ch.dummy_read != 0 {
                AdpcmBChannel { dummy_read: 0, ..b_load_start(ch, d) }
            } else {
                ch
            };
            if b_at_end(primed, d) {
                (AdpcmBChannel { status: ADPCM_B_STATUS_EOS | ADPCM_B_STATUS_BRDY, ..primed }, memory)
            } else {
                (
                    AdpcmBChannel {
                        current_address: vstd::wrapping::u32_specs::wrapping_add(primed.current_address, 1),
                        status: ADPCM_B_STATUS_BRDY,
                        ..primed
                    },
                    memory_stored(memory, primed.current_address, value),
                )
            }
        } else {
            (ch, memory)
        }
    } else {
        (ch, memory)
    }
}

pub proof fn lemma_b_sample_bound(ch: AdpcmBChannel, d: Seq<u8>, right_shift: u32)
    requires
        ch.wf(),
        right_shift <= 23,
    ensures
        -32768 <= b_sample(ch, d, right_shift) <= 32767,
{
    let weight = 0x10000 - ch.position;
    let p = ch.previous_accumulator as int;
    let a = ch.accumulator as int;
    let pos = ch.position as int;
    assert(-0x8000_0000 <= p * weight + a * pos <= 0x7fff_0000) by (nonlinear_arith)
        requires -32768 <= p <= 32767, -32768 <= a <= 32767, 0 <= pos <= 0xffff, weight == 0x10000 - pos;
    let mixed = ((p * weight + a * pos) as i32) >> 16u32;
    lemma_shr16_bound((p * weight + a * pos) as i32);
    assert(-8388608 <= mixed * b_level(d) <= 8388352) by (nonlinear_arith)
        requires -32768 <= mixed <= 32767, b_level(d) <= 255;
    lemma_scale_bound((mixed * b_level(d)) as i32, (8 + right_shift) as u32);
}

proof fn lemma_status_bits(s: u32)
    by (bit_vector)
    requires
        s <= 7,
    ensures
        (s & !1u32) | 4u32 <= 7,
        (s & !4u32) | 1u32 <= 7,
        s & !1u32 <= 7,
        s & !2u32 <= 7,
        s & !4u32 <= 7,
        s | 2u32 <= 7,
        1u32 | 2u32 == 3u32,
{
}

proof fn lemma_shr16_bound(x: i32)
    by (bit_vector)
    ensures
        -32768 <= (x >> 16u32) <= 32767,
{
}

proof fn lemma_scale_bound(x: i32, s: u32)
    by (bit_vector)
    requires
        -8388608 <= x <= 8388352,
        8 <= s <= 31,
    ensures
        -32768 <= (x >> s) <= 32767,
{
}

impl AdpcmBChannel {
    pub open spec fn wf(&self) -> bool {
        &&& self.address_shift_constant < 32
        &&& self.current_nibble <= 1
        &&& self.position <= 0xffff
        &&& -32768 <= self.accumulator <= 32767
        &&& -32768 <= self.previous_accumulator <= 32767
        &&& 127 <= self.adpcm_step <= 24576
        &&& self.status <= 7
    }

    pub fn new(address_shift_constant: u32) -> (ch: Self)
        ensures
            ch == b_initial(address_shift_constant),
    {
        AdpcmBChannel {
            address_shift_constant,
            status: ADPCM_B_STATUS_BRDY,
            current_nibble: 0,
            current_byte: 0,
            dummy_read: 0,
            position: 0,
            current_address: 0,
            accumulator: 0,
            previous_accumulator: 0,
            adpcm_step: 127,
        }
    }

    pub fn reset(&mut self)
        ensures
            *final(self) == b_initial(old(self).address_shift_constant),
    {
        self.status = ADPCM_B_STATUS_BRDY;
        self.current_nibble = 0;
        self.current_byte = 0;
        self.dummy_read = 0;
        self.position = 0;
        self.current_address = 0;
        self.accumulator = 0;
        self.previous_accumulator = 0;
        self.adpcm_step = 127;
    }

    pub fn address_shift(&self, registers: &AdpcmBRegisters) -> (shift: u32)
        requires
            self.wf(),
        ensures
            shift == b_address_shift(*self, registers.data@),
            shift < 32,
    {
        if self.address_shift_constant != 0 {
            self.address_shift_constant
        } else if registers.rom_ram() || registers.dram_8bit() {
            5
        } else {
            2
        }
    }

    pub fn at_limit(&self, registers: &AdpcmBRegisters) -> (r: bool)
        requires
            self.wf(),
        ensures
            r == b_at_limit(*self, registers.data@),
    {
        let end = registers.limit().wrapping_add(1).wrapping_shl(self.address_shift(registers)).wrapping_sub(1);
        self.current_address == end
    }

    pub fn at_end(&self, registers: &AdpcmBRegisters) -> (r: bool)
        requires
            self.wf(),
        ensures
            r == b_at_end(*self, registers.data@),
    {
        let end = registers.end().wrapping_add(1).wrapping_shl(self.address_shift(registers)).wrapping_sub(1);
        self.current_address == end
    }

    pub fn load_start(&mut self, registers: &AdpcmBRegisters)
        requires
            old(self).wf(),
        ensures
            final(self).wf(),
            *final(self) == b_load_start(*old(self), registers.data@),
    {
        proof { lemma_status_bits(self.status); }
        self.status = (self.status & !ADPCM_B_STATUS_EOS) | ADPCM_B_STATUS_PLAYING;
        self.current_address = if registers.external() {
            registers.start().wrapping_shl(self.address_shift(registers))
        } else {
            0
        };
        self.current_nibble = 0;
        self.current_byte = 0;
        self.position = 0;
        self.accumulator = 0;
        self.previous_accumulator = 0;
        self.adpcm_step = 127;
    }

    fn decode(&mut self, data: u8)
        requires
            old(self).wf(),
            data < 16,
        ensures
            final(self).wf(),
            *final(self) == b_decoded(*old(self), data),
    {
        self.previous_accumulator = self.accumulator;
        let nibble = (data & 7) as i32;
        let step = self.adpcm_step;
        assert(0 <= (2 * nibble + 1) * step <= 368640) by (nonlinear_arith)
            requires 0 <= nibble <= 7, 127 <= step <= 24576;
        let magnitude = (2 * nibble + 1) * step / 8;
        let delta = if data & 8 != 0 { -magnitude } else { magnitude };
        self.accumulator = clamp_i32(self.accumulator + delta, -32768, 32767);
        let scale = ADPCM_B_STEP_SCALE[(data & 7) as usize];
        assert(forall|i: int| 0 <= i < 8 ==> 57 <= #[trigger] ADPCM_B_STEP_SCALE@[i] <= 153);
        assert(0 <= step * scale <= 3760128) by (nonlinear_arith)
            requires 57 <= scale <= 153, 127 <= step <= 24576;
        self.adpcm_step = clamp_i32(step * scale / 64, 127, 24576);
    }

    /// Advances the voice by one output sample, decoding a nibble each time
    /// the position wraps.
    pub fn clock(&mut self, registers: &AdpcmBRegisters, memory: &[u8])
        requires
            old(self).wf(),
        ensures
            final(self).wf(),
            *final(self) == b_clocked(*old(self), registers.data@, memory@),
    {
        if !registers.execute() || registers.record() || self.status & ADPCM_B_STATUS_PLAYING == 0 {
            proof { lemma_status_bits(self.status); }
            self.status = self.status & !ADPCM_B_STATUS_PLAYING;
            return;
        }
        let position = self.position + registers.delta_n();
        self.position = if position >= 0x10000 { position - 0x10000 } else { position };
        if position < 0x10000 {
            return;
        }
        if self.current_nibble == 0 && registers.external() {
            self.current_byte = read_byte(memory, self.current_address);
        }
        let data = if self.current_nibble == 0 { self.current_byte / 16 } else { self.current_byte % 16 };
        self.current_nibble = 1 - self.current_nibble;
        if self.current_nibble == 0 {
            if registers.external() {
                if self.at_end(registers) {
                    if registers.repeat() {
                        self.load_start(registers);
                    } else {
                        self.accumulator = 0;
                        self.previous_accumulator = 0;
                        proof { lemma_status_bits(self.status); }
                        self.status = (self.status & !ADPCM_B_STATUS_PLAYING) | ADPCM_B_STATUS_EOS;
                        return;
                    }
                } else if self.at_limit(registers) {
                    self.current_address = 0;
                } else {
                    self.current_address = self.current_address.wrapping_add(1) & 0x00ff_ffff;
                }
            } else {
                self.current_byte = registers.cpudata();
                proof { lemma_status_bits(self.status); }
                self.status = self.status | ADPCM_B_STATUS_BRDY;
            }
        }
        self.decode(data);
    }

    /// Adds the voice's interpolated sample to the sides it is panned to.
    pub fn output(&self, registers: &AdpcmBRegisters, output: &mut [i32; 2], right_shift: u32)
        requires
            self.wf(),
            right_shift <= 23,
            -0x4000_0000 <= old(output)@[0] <= 0x4000_0000,
            -0x4000_0000 <= old(output)@[1] <= 0x4000_0000,
        ensures
            final(output)@[0] == old(output)@[0]
                + if b_pan_left(registers.data@) { b_sample(*self, registers.data@, right_shift) as int } else { 0 },
            final(output)@[1] == old(output)@[1]
                + if b_pan_right(registers.data@) { b_sample(*self, registers.data@, right_shift) as int } else { 0 },
    {
        proof { lemma_b_sample_bound(*self, registers.data@, right_shift); }
        let weight = (0x10000 - self.position) as i32;
        let p = self.previous_accumulator;
        let a = self.accumulator;
        let pos = self.position as i32;
        assert(-0x8000_0000 <= p * weight <= 0x7fff_8000 && -0x8000_0000 <= a * pos <= 0x7ffe_8001
            && -0x8000_0000 <= p * weight + a * pos <= 0x7fff_0000) by (nonlinear_arith)
            requires -32768 <= p <= 32767, -32768 <= a <= 32767, 0 <= pos <= 0xffff, weight == 0x10000 - pos;
        let mixed = (p * weight + a * pos) >> 16;
        proof { lemma_shr16_bound((p * weight + a * pos) as i32); }
        let level = registers.level() as i32;
        assert(-8388608 <= mixed * level <= 8388352) by (nonlinear_arith)
            requires -32768 <= mixed <= 32767, 0 <= level <= 255;
        let result = (mixed * level) >> (8 + right_shift);
        if registers.pan_left() {
            output[0] = output[0] + result;
        }
        if registers.pan_right() {
            output[1] = output[1] + result;
        }
    }

    /// Reads the CPU data register.
    pub fn read(&mut self, registers: &AdpcmBRegisters, memory: &[u8], register: usize) -> (value: u8)
        requires
            old(self).wf(),
        ensures
            final(self).wf(),
            (*final(self), value) == b_read(*old(self), registers.data@, memory@, register as int),
    {
        if register != 0x08 || registers.execute() || registers.record() || !registers.external() {
            return 0;
        }
        if self.dummy_read != 0 {
            self.load_start(registers);
            self.dummy_read = self.dummy_read - 1;
            return 0;
        }
        proof { lemma_status_bits(self.status); }
        let result = read_byte(memory, self.current_address);
        self.current_address = self.current_address.wrapping_add(1);
        if self.at_end(registers) {
            self.status = ADPCM_B_STATUS_EOS | ADPCM_B_STATUS_BRDY;
        } else {
            self.status = ADPCM_B_STATUS_BRDY;
        }
        if self.at_limit(registers) {
            self.current_address = 0;
        }
        result
    }

    /// Reacts to a register write; CPU-mode recording stores bytes into the
    /// sample memory.
    pub fn write(&mut self, registers: &AdpcmBRegisters, memory: &mut Vec<u8>, register: usize, value: u8)
        requires
            old(self).wf(),
        ensures
            final(self).wf(),
            (*final(self), final(memory)@) == b_written(*old(self), registers.data@, old(memory)@, register as int, value),
    {
        if register == 0x00 {
            if registers.execute() {
                self.load_start(registers);
            } else {
                proof { lemma_status_bits(self.status); }
                self.status = self.status & !ADPCM_B_STATUS_EOS;
            }
            if registers.reset_flag() {
                self.reset();
            }
            if registers.external() {
                self.dummy_read = 2;
            }
        } else if register == 0x08 {
            if registers.execute() && !registers.record() && !registers.external() {
                proof { lemma_status_bits(self.status); }
                self.status = self.status & !ADPCM_B_STATUS_BRDY;
            } else if !registers.execute() && registers.record() && registers.external() {
                if self.dummy_read != 0 {
                    self.load_start(registers);
                    self.dummy_read = 0;
                }
                proof { lemma_status_bits(self.status); }
                if self.at_end(registers) {
                    self.status = ADPCM_B_STATUS_EOS | ADPCM_B_STATUS_BRDY;
                } else {
                    store_byte(memory, self.current_address, value);
                    self.current_address = self.current_address.wrapping_add(1);
                    self.status = ADPCM_B_STATUS_BRDY;
                }
            }
        }
    }
}

fn store_byte(memory: &mut Vec<u8>, address: u32, value: u8)
    ensures
        final(memory)@ == memory_stored(old(memory)@, address, value),
{
    let index = address as usize;
    if index < memory.len() {
        memory.set(index, value);
    } else if index < usize::MAX {
        memory.resize(index + 1, 0);
        memory.set(index, value);
        proof {
            assert forall|i: int| old(memory)@.len() <= i < index implies memory@[i] == 0u8 by {
                assert(cloned::<u8>(0u8, memory@[i]));
            }
            assert(memory@ =~= memory_stored(old(memory)@, address, value));
        }
    }
}

/// The ADPCM-B voice with its registers and sample memory.
#[derive(Clone, Debug)]
pub struct AdpcmBEngine {
    pub registers: AdpcmBRegisters,
    pub channel: AdpcmBChannel,
    pub memory: Vec<u8>,
}

impl AdpcmBEngine {
    pub open spec fn wf(&self) -> bool {
        &&& self.channel.wf()
        &&& self.channel.address_shift_constant == 0
    }

    pub fn new() -> (engine: Self)
        ensures
            engine.wf(),
            engine.registers.data@ == adpcm_b_reset_data(),
            engine.channel == b_initial(0),
            engine.memory@.len() == 0,
    {
        let mut engine = AdpcmBEngine {
            registers: AdpcmBRegisters::new(),
            channel: AdpcmBChannel::new(0),
            memory: Vec::new(),
        };
        engine.reset();
        engine
    }

    /// Resets the registers and the voice; the sample memory stays.
    pub fn reset(&mut self)
        requires
            old(self).wf(),
        ensures
            final(self).wf(),
            final(self).registers.data@ == adpcm_b_reset_data(),
            final(self).channel == b_initial(0),
            final(self).memory@ == old(self).memory@,
    {
        self.registers.reset();
        self.channel.reset();
    }

    pub fn set_memory(&mut self, memory: &[u8])
        ensures
            final(self).memory@ == memory@,
            final(self).registers == old(self).registers,
            final(self).channel == old(self).channel,
    {
        self.memory = copy_bytes(memory);
    }

    pub fn read(&mut self, register: usize) -> (value: u8)
        requires
            old(self).wf(),
        ensures
            final(self).wf(),
            final(self).registers == old(self).registers,
            final(self).memory@ == old(self).memory@,
            (final(self).channel, value) == b_read(old(self).channel, old(self).registers.data@, old(self).memory@, register as int),
    {
        self.channel.read(&self.registers, self.memory.as_slice(), register)
    }

    pub fn write(&mut self, register: usize, data: u8)
        requires
            old(self).wf(),
        ensures
            final(self).wf(),
            final(self).registers.data@ == registers_stored(old(self).registers.data@, register as int, data),
            (final(self).channel, final(self).memory@) == b_written(
                old(self).channel,
                final(self).registers.data@,
                old(self).memory@,
                register as int,
                data,
            ),
    {
        self.registers.write(register, data);
        self.channel.write(&self.registers, &mut self.memory, register, data);
    }

    pub fn clock(&mut self)
        requires
            old(self).wf(),
        ensures
            final(self).wf(),
            final(self).registers == old(self).registers,
            final(self).memory@ == old(self).memory@,
            final(self).channel == b_clocked(old(self).channel, old(self).registers.data@, old(self).memory@),
    {
        self.channel.clock(&self.registers, self.memory.as_slice());
    }

    pub fn output(&self, output: &mut [i32; 2], right_shift: u32)
        requires
            self.wf(),
            right_shift <= 23,
            -0x4000_0000 <= old(output)@[0] <= 0x4000_0000,
            -0x4000_0000 <= old(output)@[1] <= 0x4000_0000,
        ensures
            final(output)@[0] == old(output)@[0]
                + if b_pan_left(self.registers.data@) { b_sample(self.channel, self.registers.data@, right_shift) as int } else { 0 },
            final(output)@[1] == old(output)@[1]
                + if b_pan_right(self.registers.data@) { b_sample(self.channel, self.registers.data@, right_shift) as int } else { 0 },
    {
        self.channel.output(&self.registers, output, right_shift);
    }

    /// The status flags: end of sample, buffer ready, playing.
    pub fn status(&self) -> (status: u8)
        requires
            self.wf(),
        ensures
            status == self.channel.status,
    {
        self.channel.status as u8
    }
}

} // verus!
