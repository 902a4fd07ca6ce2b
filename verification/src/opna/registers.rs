use vstd::prelude::*;
use super::envelope::rates_wf;
use super::lfo::Lfo;

verus! {

broadcast use crate::bits::group_bit_bounds;

/// Number of bytes of register space in the two OPNA banks.
pub const REGISTER_SPACE: usize = 0x200;

/// Everything an operator needs from the registers to produce its next sample.
#[derive(Clone, Copy, Debug, PartialEq, Eq)]
pub struct OperatorConfig {
    pub block_freq: u32,
    pub detune: i32,
    pub multiple: u32,
    pub pm_sensitivity: u8,
    pub total_level: u32,
    pub sustain: u32,
    pub rates: [u8; 6],
    pub am_enabled: bool,
    pub ssg_enabled: bool,
    pub ssg_mode: u8,
}

impl OperatorConfig {
    /// The bounds that the register decoder guarantees.
    pub open spec fn wf(&self) -> bool {
        &&& self.block_freq <= 0x3fff
        &&& -22 <= self.detune <= 22
        &&& 1 <= self.multiple <= 30
        &&& self.pm_sensitivity < 8
        &&& self.total_level <= 0x3f8
        &&& rates_wf(self.rates)
    }
}

/// The FM register file of both banks together with the LFO it drives.
#[derive(Clone, Debug)]
pub struct OpnaRegisters {
    pub data: [u8; 0x200],
    pub lfo: Lfo,
}

/// The register contents after the reset values are loaded: everything zero
/// except the pan bits of the six channels, which start with both outputs on.
pub open spec fn reset_register(index: int) -> u8 {
    if index == 0x0b4 || index == 0x0b5 || index == 0x0b6 || index == 0x1b4 || index == 0x1b5
        || index == 0x1b6 {
        0xc0
    } else {
        0
    }
}

/// The latch register that holds the upper frequency byte written at `index`.
pub open spec fn latch_index(index: u32) -> u32 {
    0x0b8 | ((index >> 3) & 1) | (index & 0x100)
}

/// The register file after a write: upper frequency bytes wait in a latch until
/// the lower byte arrives, latch addresses themselves are read-only, and
/// everything else is stored as written.
pub open spec fn registers_written(data: Seq<u8>, index: u32, value: u8) -> Seq<u8> {
    let latch = latch_index(index) as int;
    if index >= 0x200 {
        data
    } else if index & 0xf0 == 0xa0 {
        if index & 3 == 3 {
            data
        } else if index & 4 != 0 {
            data.update(latch, value | 0x80)
        } else if data[latch] & 0x80 != 0 {
            data.update(index as int, value).update((index | 4) as int, data[latch] & 0x3f).update(latch, 0)
        } else {
            data
        }
    } else if index & 0xf8 == 0xb8 {
        data
    } else {
        data.update(index as int, value)
    }
}

/// The key-on request carried by a write: the channel (0 to 5) and the mask of
/// operators to key on.
pub open spec fn key_request(index: int, value: u8) -> Option<(usize, u8)> {
    if index == 0x28 && value & 3 != 3 {
        Some((((value & 3) + (if value & 4 != 0 { 3int } else { 0 })) as usize, value >> 4))
    } else {
        None
    }
}

/// The register offset of a channel within the register file.
pub open spec fn channel_offset_spec(channel: int) -> int {
    (channel % 3) + 0x100 * (channel / 3)
}

/// The register offsets of a channel's four operators, in slot order 1, 3, 2, 4.
pub open spec fn operator_offsets_spec(channel: int) -> [usize; 4] {
    let bank = (0x100 * (channel / 3)) as usize;
    let c = (channel % 3) as usize;
    [(bank + c) as usize, (bank + c + 8) as usize, (bank + c + 4) as usize, (bank + c + 12) as usize]
}

/// The rate with key scaling applied, saturating at 63; a zero rate stays zero.
pub open spec fn effective_rate_spec(raw_rate: int, ksr: int) -> u8 {
    if raw_rate == 0 {
        0
    } else if raw_rate + ksr < 63 {
        (raw_rate + ksr) as u8
    } else {
        63
    }
}

/// The detune table of the OPN family: steps by keycode and detune amount.
pub const DETUNE_TABLE: [[u8; 4]; 32] = [
    [0, 0, 1, 2], [0, 0, 1, 2], [0, 0, 1, 2], [0, 0, 1, 2],
    [0, 1, 2, 2], [0, 1, 2, 3], [0, 1, 2, 3], [0, 1, 2, 3],
    [0, 1, 2, 4], [0, 1, 3, 4], [0, 1, 3, 4], [0, 1, 3, 5],
    [0, 2, 4, 5], [0, 2, 4, 6], [0, 2, 4, 6], [0, 2, 5, 7],
    [0, 2, 5, 8], [0, 3, 6, 8], [0, 3, 6, 9], [0, 3, 7, 10],
    [0, 4, 8, 11], [0, 4, 8, 12], [0, 4, 9, 13], [0, 5, 10, 14],
    [0, 5, 11, 16], [0, 6, 12, 17], [0, 6, 13, 19], [0, 7, 14, 20],
    [0, 8, 16, 22], [0, 8, 16, 22], [0, 8, 16, 22], [0, 8, 16, 22],
];

/// The signed phase offset of a 3-bit detune value at a keycode.
pub open spec fn detune_spec(detune: u32, keycode: u32) -> i32 {
    let value = DETUNE_TABLE@[(keycode & 31) as int]@[(detune & 3) as int] as i32;
    if detune & 4 != 0 { (-value) as i32 } else { value }
}

/// The 14-bit block and frequency number of a channel.
pub open spec fn channel_block_freq_spec(data: Seq<u8>, channel_offset: int) -> u32 {
    (((data[0x0a4 + channel_offset] & 0x3f) as u32) << 8) | (data[0x0a0 + channel_offset] as u32)
}

/// The block and frequency of one of the extra channel 3 operator frequencies.
pub open spec fn multi_block_freq_spec(data: Seq<u8>, number: int) -> u32 {
    (((data[0x0ac + number] & 0x3f) as u32) << 8) | (data[0x0a8 + number] as u32)
}

/// The frequency an operator uses: channel 3 in multi-frequency mode gives
/// three of its operators their own frequencies.
pub open spec fn operator_block_freq_spec(data: Seq<u8>, channel_offset: int, operator_offset: int) -> u32 {
    let block_freq = channel_block_freq_spec(data, channel_offset);
    if data[0x27] & 0xc0 != 0 && channel_offset == 2 {
        if operator_offset == 2 {
            multi_block_freq_spec(data, 1)
        } else if operator_offset == 10 {
            multi_block_freq_spec(data, 2)
        } else if operator_offset == 6 {
            multi_block_freq_spec(data, 0)
        } else {
            block_freq
        }
    } else {
        block_freq
    }
}

/// The keycode of a block and frequency: the block and the top frequency bits.
pub open spec fn keycode_spec(block_freq: u32) -> u32 {
    (((block_freq >> 10) & 0x0f) << 1) | ((0xfe80u32 >> ((block_freq >> 7) & 0x0f)) & 1)
}

/// The decoded configuration of an operator.
pub open spec fn operator_config_spec(data: Seq<u8>, channel_offset: int, operator_offset: int) -> OperatorConfig {
    let block_freq = operator_block_freq_spec(data, channel_offset, operator_offset);
    let keycode = keycode_spec(block_freq);
    let dt_mul = data[0x30 + operator_offset];
    let detune = detune_spec(((dt_mul >> 4) & 7) as u32, keycode);
    let multiple = if (dt_mul & 0x0f) == 0 { 1 } else { (dt_mul & 0x0f) * 2 };
    let ks_ar = data[0x50 + operator_offset];
    let ksr = keycode >> ((3 - ((ks_ar >> 6) & 3)) as u32);
    let attack = effective_rate_spec((ks_ar & 0x1f) * 2, ksr as int);
    let decay = effective_rate_spec((data[0x60 + operator_offset] & 0x1f) * 2, ksr as int);
    let sustain = effective_rate_spec((data[0x70 + operator_offset] & 0x1f) * 2, ksr as int);
    let release = effective_rate_spec((data[0x80 + operator_offset] & 0x0f) * 4 + 2, ksr as int);
    let level = (data[0x80 + operator_offset] >> 4) as u32;
    let level = if level == 15 { 31u32 } else { level };
    OperatorConfig {
        block_freq,
        detune,
        multiple: multiple as u32,
        pm_sensitivity: data[0x0b4 + channel_offset] & 7,
        total_level: ((data[0x40 + operator_offset] & 0x7f) * 8) as u32,
        sustain: (level * 32) as u32,
        rates: [0, attack, decay, sustain, release, 0],
        am_enabled: data[0x60 + operator_offset] & 0x80 != 0,
        ssg_enabled: data[0x90 + operator_offset] & 0x08 != 0,
        ssg_mode: data[0x90 + operator_offset] & 7,
    }
}

/// A channel offset as produced for channels 0 to 5.
pub open spec fn valid_channel_offset(channel_offset: int) -> bool {
    0 <= channel_offset < 3 || 0x100 <= channel_offset < 0x103
}

/// An operator offset as produced for channels 0 to 5.
pub open spec fn valid_operator_offset(operator_offset: int) -> bool {
    0 <= operator_offset < 0x10 || 0x100 <= operator_offset < 0x110
}

impl OpnaRegisters {
    pub fn new() -> (registers: Self)
        ensures
            forall|i: int| 0 <= i < 0x200 ==> #[trigger] registers.data@[i] == 0,
            registers.lfo.counter == 0,
    {
        OpnaRegisters { data: [0; 0x200], lfo: Lfo::new() }
    }

    /// Clears the register file and loads the reset values.
    pub fn reset(&mut self)
        ensures
            forall|i: int| 0 <= i < 0x200 ==> #[trigger] final(self).data@[i] == reset_register(i),
            final(self).lfo == old(self).lfo,
    {
        self.data = [0; 0x200];
        self.data[0x0b4] = 0xc0;
        self.data[0x0b5] = 0xc0;
        self.data[0x0b6] = 0xc0;
        self.data[0x1b4] = 0xc0;
        self.data[0x1b5] = 0xc0;
        self.data[0x1b6] = 0xc0;
    }

    pub fn read(&self, index: u16) -> (value: u8)
        ensures
            value == (if index < 0x200 { self.data@[index as int] } else { 0 }),
    {
        if (index as usize) < 0x200 {
            self.data[index as usize]
        } else {
            0
        }
    }

    /// Stores a register write and returns the key-on request it carries.
    pub fn write(&mut self, index: u16, value: u8) -> (key: Option<(usize, u8)>)
        ensures
            final(self).data@ == registers_written(old(self).data@, index as u32, value),
            final(self).lfo == old(self).lfo,
            key == key_request(index as int, value),
            key matches Some((channel, mask)) ==> channel < 6 && mask < 16,
    {
        let index = index as u32;
        if index >= 0x200 {
            return None;
        }
        if index & 0xf0 == 0xa0 {
            if index & 3 == 3 {
                return None;
            }
            let latch = 0x0b8 | ((index >> 3) & 1) | (index & 0x100);
            proof { crate::bits::lemma_register_index_bits(index); }
            if index & 4 != 0 {
                self.data[latch as usize] = value | 0x80;
            } else if self.data[latch as usize] & 0x80 != 0 {
                self.data[index as usize] = value;
                self.data[(index | 4) as usize] = self.data[latch as usize] & 0x3f;
                self.data[latch as usize] = 0;
            }
            assert(self.data@ =~= registers_written(old(self).data@, index, value));
            return None;
        }
        if index & 0xf8 == 0xb8 {
            return None;
        }
        self.data[index as usize] = value;
        if index == 0x28 {
            let mut channel = (value & 3) as usize;
            if channel == 3 {
                return None;
            }
            if value & 4 != 0 {
                channel = channel + 3;
            }
            proof { vstd::bits::lemma_u8_shr_is_div(value, 4); vstd::arithmetic::power2::lemma2_to64(); }
            return Some((channel, value >> 4));
        }
        None
    }

    pub fn clock_lfo(&mut self) -> (pm: i32)
        ensures
            final(self).data == old(self).data,
            -7 <= pm <= 7,
    {
        let enabled = self.lfo_enabled();
        let rate = self.lfo_rate();
        self.lfo.clock(enabled, rate)
    }

    pub fn lfo_am_offset(&self, channel_offset: usize) -> (offset: u32)
        requires
            valid_channel_offset(channel_offset as int),
        ensures
            offset == super::lfo::lfo_am_offset_spec(self.lfo.am, (self.data@[0x0b4 + channel_offset] >> 4) & 3),
            offset <= 0x1fe,
    {
        self.lfo.am_offset(self.channel_lfo_am(channel_offset))
    }

    pub fn lfo_enabled(&self) -> (enabled: bool)
        ensures
            enabled == (self.data@[0x22] & 0x08 != 0),
    {
        self.data[0x22] & 0x08 != 0
    }

    pub fn lfo_rate(&self) -> (rate: u8)
        ensures
            rate == self.data@[0x22] & 7,
            rate < 8,
    {
        self.data[0x22] & 7
    }

    pub fn channel_offset(channel: usize) -> (offset: usize)
        requires
            channel < 6,
        ensures
            offset == channel_offset_spec(channel as int),
            valid_channel_offset(offset as int),
    {
        (channel % 3) + 0x100 * (channel / 3)
    }

    pub fn operator_offsets(channel: usize) -> (offsets: [usize; 4])
        requires
            channel < 6,
        ensures
            offsets == operator_offsets_spec(channel as int),
            forall|i: int| 0 <= i < 4 ==> valid_operator_offset(#[trigger] offsets@[i] as int),
    {
        let bank = 0x100 * (channel / 3);
        let offsets = match channel % 3 {
            0 => [bank, bank + 8, bank + 4, bank + 12],
            1 => [bank + 1, bank + 9, bank + 5, bank + 13],
            _ => [bank + 2, bank + 10, bank + 6, bank + 14],
        };
        assert(offsets =~= operator_offsets_spec(channel as int));
        offsets
    }

    pub fn channel_algorithm(&self, channel_offset: usize) -> (algorithm: u8)
        requires
            valid_channel_offset(channel_offset as int),
        ensures
            algorithm == self.data@[0x0b0 + channel_offset] & 7,
            algorithm < 8,
    {
        self.data[0x0b0 + channel_offset] & 7
    }

    pub fn channel_feedback(&self, channel_offset: usize) -> (feedback: u8)
        requires
            valid_channel_offset(channel_offset as int),
        ensures
            feedback == (self.data@[0x0b0 + channel_offset] >> 3) & 7,
            feedback < 8,
    {
        (self.data[0x0b0 + channel_offset] >> 3) & 7
    }

    pub fn channel_pan(&self, channel_offset: usize) -> (pan: (bool, bool))
        requires
            valid_channel_offset(channel_offset as int),
        ensures
            pan.0 == (self.data@[0x0b4 + channel_offset] & 0x80 != 0),
            pan.1 == (self.data@[0x0b4 + channel_offset] & 0x40 != 0),
    {
        let value = self.data[0x0b4 + channel_offset];
        (value & 0x80 != 0, value & 0x40 != 0)
    }

    pub fn channel_lfo_am(&self, channel_offset: usize) -> (sensitivity: u8)
        requires
            valid_channel_offset(channel_offset as int),
        ensures
            sensitivity == (self.data@[0x0b4 + channel_offset] >> 4) & 3,
            sensitivity < 4,
    {
        (self.data[0x0b4 + channel_offset] >> 4) & 3
    }

    pub fn channel_lfo_pm(&self, channel_offset: usize) -> (sensitivity: u8)
        requires
            valid_channel_offset(channel_offset as int),
        ensures
            sensitivity == self.data@[0x0b4 + channel_offset] & 7,
    {
        self.data[0x0b4 + channel_offset] & 7
    }

    pub fn channel_block_freq(&self, channel_offset: usize) -> (block_freq: u32)
        requires
            valid_channel_offset(channel_offset as int),
        ensures
            block_freq == channel_block_freq_spec(self.data@, channel_offset as int),
            block_freq <= 0x3fff,
    {
        let high = (self.data[0x0a4 + channel_offset] & 0x3f) as u32;
        let low = self.data[0x0a0 + channel_offset] as u32;
        proof { crate::bits::lemma_u32_pack_bytes(high, low); }
        (high << 8) | low
    }

    pub fn multi_frequency(&self) -> (enabled: bool)
        ensures
            enabled == (self.data@[0x27] & 0xc0 != 0),
    {
        self.data[0x27] & 0xc0 != 0
    }

    pub fn multi_block_freq(&self, number: usize) -> (block_freq: u32)
        requires
            number < 3,
        ensures
            block_freq == multi_block_freq_spec(self.data@, number as int),
            block_freq <= 0x3fff,
    {
        let high = (self.data[0x0ac + number] & 0x3f) as u32;
        let low = self.data[0x0a8 + number] as u32;
        proof { crate::bits::lemma_u32_pack_bytes(high, low); }
        (high << 8) | low
    }

    pub fn operator_config(&self, channel_offset: usize, operator_offset: usize) -> (config: OperatorConfig)
        requires
            valid_channel_offset(channel_offset as int),
            valid_operator_offset(operator_offset as int),
        ensures
            config == operator_config_spec(self.data@, channel_offset as int, operator_offset as int),
            config.wf(),
            self.data@[0x30 + operator_offset as int] & 15 != 0
                ==> config.multiple == 2 * (self.data@[0x30 + operator_offset as int] & 15),
            self.data@[0x30 + operator_offset as int] & 15 == 0 ==> config.multiple == 1,
    {
        let mut block_freq = self.channel_block_freq(channel_offset);
        if self.multi_frequency() && channel_offset == 2 {
            if operator_offset == 2 {
                block_freq = self.multi_block_freq(1);
            } else if operator_offset == 10 {
                block_freq = self.multi_block_freq(2);
            } else if operator_offset == 6 {
                block_freq = self.multi_block_freq(0);
            }
        }
        let keycode = (((block_freq >> 10) & 0x0f) << 1) | ((0xfe80u32 >> ((block_freq >> 7) & 0x0f)) & 1);
        proof { crate::bits::lemma_keycode_bound(block_freq); }
        let dt_mul = self.data[0x30 + operator_offset];
        let detune = detune_adjustment(((dt_mul >> 4) & 7) as u32, keycode);
        let mut multiple = ((dt_mul & 0x0f) as u32) * 2;
        if multiple == 0 {
            multiple = 1;
        }
        let ks_ar = self.data[0x50 + operator_offset];
        let ksr = keycode >> ((3 - ((ks_ar >> 6) & 3)) as u32);
        let attack = effective_rate(((ks_ar & 0x1f) as u32) * 2, ksr);
        let decay = effective_rate(((self.data[0x60 + operator_offset] & 0x1f) as u32) * 2, ksr);
        let sustain = effective_rate(((self.data[0x70 + operator_offset] & 0x1f) as u32) * 2, ksr);
        let release = effective_rate(((self.data[0x80 + operator_offset] & 0x0f) as u32) * 4 + 2, ksr);
        let mut level = (self.data[0x80 + operator_offset] >> 4) as u32;
        proof { vstd::bits::lemma_u8_shr_is_div(self.data@[0x80 + operator_offset as int], 4); vstd::arithmetic::power2::lemma2_to64(); }
        if level == 15 {
            level = 31;
        }
        let config = OperatorConfig {
            block_freq,
            detune,
            multiple,
            pm_sensitivity: self.channel_lfo_pm(channel_offset),
            total_level: ((self.data[0x40 + operator_offset] & 0x7f) as u32) * 8,
            sustain: level * 32,
            rates: [0, attack, decay, sustain, release, 0],
            am_enabled: self.data[0x60 + operator_offset] & 0x80 != 0,
            ssg_enabled: self.data[0x90 + operator_offset] & 0x08 != 0,
            ssg_mode: self.data[0x90 + operator_offset] & 7,
        };
        assert(rates_wf(config.rates));
        config
    }
}

pub fn effective_rate(raw_rate: u32, ksr: u32) -> (rate: u8)
    ensures
        rate == effective_rate_spec(raw_rate as int, ksr as int),
        rate <= 63,
{
    if raw_rate == 0 {
        0
    } else {
        let sum = raw_rate.saturating_add(ksr);
        if sum < 63 {
            sum as u8
        } else {
            63
        }
    }
}

pub fn detune_adjustment(detune: u32, keycode: u32) -> (offset: i32)
    ensures
        offset == detune_spec(detune, keycode),
        -22 <= offset <= 22,
{
    let row = (keycode & 31) as usize;
    let column = (detune & 3) as usize;
    proof { lemma_detune_table_bounded(row as int, column as int); }
    let value = DETUNE_TABLE[row][column] as i32;
    if detune & 4 != 0 {
        -value
    } else {
        value
    }
}

proof fn lemma_detune_table_bounded(row: int, column: int)
    requires
        0 <= row < 32,
        0 <= column < 4,
    ensures
        DETUNE_TABLE@[row]@[column] <= 22,
{
    assert(forall|r: int, c: int| 0 <= r < 32 && 0 <= c < 4 ==> #[trigger] DETUNE_TABLE@[r]@[c] <= 22);
}


/// The frequency multiple of an operator counts half harmonics: a MUL
/// field m (the low nibble of its DT/MUL register) from 1 to 15 plays at
/// m times the channel frequency, 2m half steps, and m = 0 at half of it.
pub proof fn law_multiple_counts_half_harmonics(data: Seq<u8>, channel_offset: int, operator_offset: int)
    requires
        data.len() == 0x200,
        valid_channel_offset(channel_offset),
        valid_operator_offset(operator_offset),
    ensures
        ({
            let mul = data[0x30 + operator_offset] & 15;
            let multiple = operator_config_spec(data, channel_offset, operator_offset).multiple;
            &&& mul != 0 ==> multiple == 2 * mul
            &&& mul == 0 ==> multiple == 1
        }),
{
}

/// The levels of an operator: its total level (the low seven bits of its
/// TL register) attenuates in steps of eight, and its sustain level (the
/// high nibble of its SL/RR register) in steps of 32, the top value 15
/// standing for the bottom of the range (31 steps).
pub proof fn law_operator_levels(data: Seq<u8>, channel_offset: int, operator_offset: int)
    requires
        data.len() == 0x200,
        valid_channel_offset(channel_offset),
        valid_operator_offset(operator_offset),
    ensures
        ({
            let config = operator_config_spec(data, channel_offset, operator_offset);
            let sustain_level = data[0x80 + operator_offset] / 16;
            &&& config.total_level == 8 * (data[0x40 + operator_offset] % 128)
            &&& sustain_level < 15 ==> config.sustain == 32 * sustain_level
            &&& sustain_level == 15 ==> config.sustain == 32 * 31
        }),
{
    let tl = data[0x40 + operator_offset];
    let sl = data[0x80 + operator_offset];
    vstd::bits::lemma_low_bits_mask_values();
    vstd::arithmetic::power2::lemma2_to64();
    vstd::bits::lemma_u8_low_bits_mask_is_mod(tl, 7);
    vstd::bits::lemma_u8_shr_is_div(sl, 4);
}

/// A write to an ordinary register (not a frequency byte or its latch)
/// reads back as written.
pub proof fn law_plain_write_reads_back(data: Seq<u8>, index: u32, value: u8)
    requires
        data.len() == 0x200,
        index < 0x200,
        index & 0xf0 != 0xa0,
        index & 0xf8 != 0xb8,
    ensures
        registers_written(data, index, value)[index as int] == value,
{
}

/// The frequency latch: the upper byte written first waits in its latch;
/// the lower byte then stores both (the upper one without its latch flag)
/// and empties the latch.
pub proof fn law_frequency_latch(data: Seq<u8>, high: u32, high_value: u8, low_value: u8)
    requires
        data.len() == 0x200,
        high < 0x200,
        high & 0xf0 == 0xa0,
        high & 4 != 0,
        high & 3 != 3,
    ensures
        ({
            let low = (high - 4) as u32;
            let written = registers_written(registers_written(data, high, high_value), low, low_value);
            &&& written[low as int] == low_value
            &&& written[high as int] == high_value & 0x3f
            &&& written[latch_index(high) as int] == 0
        }),
{
    let low = (high - 4) as u32;
    let latch = latch_index(high);
    assert(low & 0xf0 == 0xa0 && low & 4 == 0 && low & 3 != 3 && (low | 4) == high && latch_index(low) == latch
        && low < 0x200 && 0xb8 <= latch < 0x200 && latch != low && latch != high) by (bit_vector)
        requires
            high < 0x200, high & 0xf0 == 0xa0, high & 4 != 0, high & 3 != 3, low == high - 4,
            latch == 0x0b8 | ((high >> 3) & 1) | (high & 0x100);
    assert((high_value | 0x80) & 0x80 != 0 && (high_value | 0x80) & 0x3f == high_value & 0x3f) by (bit_vector);
}

} // verus!
