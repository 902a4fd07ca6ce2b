use vstd::prelude::*;
use super::channel::{FmChannel, ALGORITHM_OPS, channel_mono};
use super::registers::{
    OpnaRegisters, OperatorConfig, channel_offset_spec, key_request, operator_offsets_spec,
    registers_written,
};

verus! {

broadcast use crate::bits::group_bit_bounds;

pub const CHANNELS: usize = 6;
pub const ALL_CHANNELS: u32 = 0x3f;

/// The six FM channels of the OPNA with their shared register file.
#[derive(Clone, Debug)]
pub struct FmEngine {
    pub registers: OpnaRegisters,
    pub channels: [FmChannel; 6],
    pub env_counter: u32,
    pub active_channels: u32,
    pub modified_channels: u32,
    pub prepare_count: u32,
    pub peaks: [i32; 6],
}

/// Whether bit `index` of a channel mask is set.
pub open spec fn mask_has(mask: u32, index: int) -> bool {
    mask & (1u32 << index as u32) != 0
}

/// The envelope counter after one clock: it skips every value whose low two
/// bits are both set.
pub open spec fn next_env_counter(counter: u32) -> u32 {
    let c = vstd::wrapping::u32_specs::wrapping_add(counter, 1);
    if c & 3 == 3 { vstd::wrapping::u32_specs::wrapping_add(c, 1) } else { c }
}

/// Channel outputs can be clipped at `clipmax` without overflowing.
pub open spec fn clip_ok(engine: FmEngine, clipmax: i32) -> bool {
    forall|i: int| 0 <= i < 6 ==> (ALGORITHM_OPS@[#[trigger] engine.channels@[i].algorithm as int] & 0x380 != 0 ==> clipmax >= 0)
}

/// The amplitude modulation offset that channel `i` receives.
pub open spec fn channel_am(engine: FmEngine, i: int) -> u32 {
    super::lfo::lfo_am_offset_spec(
        engine.registers.lfo.am,
        (engine.registers.data@[0x0b4 + channel_offset_spec(i)] >> 4) & 3,
    )
}

/// The stereo mix of the channels below `count` that are in `mask` and active.
pub open spec fn fm_mix(engine: FmEngine, mask: u32, rshift: u32, clipmax: i32, count: int) -> (int, int)
    decreases count,
{
    if count <= 0 {
        (0, 0)
    } else {
        let (l, r) = fm_mix(engine, mask, rshift, clipmax, count - 1);
        let i = count - 1;
        if mask_has(mask & engine.active_channels, i) {
            let ch = engine.channels@[i];
            let mono = channel_mono(ch, channel_am(engine, i), rshift, clipmax);
            (l + if ch.output_left { mono as int } else { 0 }, r + if ch.output_right { mono as int } else { 0 })
        } else {
            (l, r)
        }
    }
}

impl FmEngine {
    pub open spec fn wf(&self) -> bool {
        &&& forall|i: int| 0 <= i < 6 ==> (#[trigger] self.channels@[i]).wf()
        &&& self.prepare_count <= 4096
    }

    pub fn new() -> (engine: Self)
        ensures
            engine.wf(),
            engine.env_counter == 0,
            engine.active_channels == ALL_CHANNELS,
            engine.modified_channels == ALL_CHANNELS,
            engine.prepare_count == 0,
    {
        let channel = FmChannel::new();
        let mut engine = FmEngine {
            registers: OpnaRegisters::new(),
            channels: [channel, channel, channel, channel, channel, channel],
            env_counter: 0,
            active_channels: ALL_CHANNELS,
            modified_channels: ALL_CHANNELS,
            prepare_count: 0,
            peaks: [0, 0, 0, 0, 0, 0],
        };
        engine.reset();
        engine
    }

    /// Loads the register reset values and silences every channel.
    pub fn reset(&mut self)
        requires
            old(self).wf(),
        ensures
            final(self).wf(),
            final(self).env_counter == 0,
            final(self).active_channels == ALL_CHANNELS,
            final(self).modified_channels == ALL_CHANNELS,
            final(self).prepare_count == 0,
            final(self).peaks == old(self).peaks,
    {
        self.registers.reset();
        self.env_counter = 0;
        self.active_channels = ALL_CHANNELS;
        self.modified_channels = ALL_CHANNELS;
        self.prepare_count = 0;
        let mut i: usize = 0;
        while i < CHANNELS
            invariant
                0 <= i <= 6,
                self.wf(),
                self.env_counter == 0,
                self.active_channels == ALL_CHANNELS,
                self.modified_channels == ALL_CHANNELS,
                self.prepare_count == 0,
                self.peaks == old(self).peaks,
            decreases 6 - i,
        {
            let mut channel = self.channels[i];
            channel.reset();
            self.channels[i] = channel;
            i = i + 1;
        }
    }

    pub fn registers(&self) -> (registers: &OpnaRegisters)
        ensures
            *registers == self.registers,
    {
        &self.registers
    }

    /// Stores a register write; a key-on write latches the operator key states
    /// of its channel, to be applied on the next clock.
    pub fn write(&mut self, index: u16, value: u8)
        requires
            old(self).wf(),
        ensures
            final(self).wf(),
            final(self).registers.data@ == registers_written(old(self).registers.data@, index as u32, value),
            final(self).modified_channels == ALL_CHANNELS,
            final(self).env_counter == old(self).env_counter,
            final(self).prepare_count == old(self).prepare_count,
            final(self).active_channels == old(self).active_channels,
            match key_request(index as int, value) {
                Some((channel, mask)) => forall|i: int| 0 <= i < 6 && i != channel ==>
                    #[trigger] final(self).channels@[i] == old(self).channels@[i],
                None => final(self).channels == old(self).channels,
            },
    {
        self.modified_channels = ALL_CHANNELS;
        if let Some((channel, mask)) = self.registers.write(index, value) {
            let mut ch = self.channels[channel];
            ch.keyonoff(mask);
            self.channels[channel] = ch;
        }
    }

    /// Reloads the operator configuration of the masked channels from the
    /// registers and records which of them can be heard.
    fn prepare(&mut self, channel_mask: u32)
        requires
            old(self).wf(),
        ensures
            final(self).wf(),
            final(self).registers == old(self).registers,
            final(self).modified_channels == 0,
            final(self).prepare_count == 0,
            final(self).env_counter == old(self).env_counter,
            final(self).peaks == old(self).peaks,
            forall|i: int| 0 <= i < 6 ==> #[trigger] final(self).channels@[i].algorithm
                == (if mask_has(channel_mask, i) {
                    old(self).registers.data@[0x0b0 + channel_offset_spec(i)] & 7
                } else {
                    old(self).channels@[i].algorithm
                }),
    {
        self.active_channels = 0;
        let lfo_enabled = self.registers.lfo_enabled();
        let mut i: usize = 0;
        while i < CHANNELS
            invariant
                0 <= i <= 6,
                self.wf(),
                self.registers == old(self).registers,
                self.env_counter == old(self).env_counter,
                self.prepare_count == old(self).prepare_count,
                self.peaks == old(self).peaks,
                forall|j: int| 0 <= j < i ==> #[trigger] self.channels@[j].algorithm
                    == (if mask_has(channel_mask, j) {
                        old(self).registers.data@[0x0b0 + channel_offset_spec(j)] & 7
                    } else {
                        old(self).channels@[j].algorithm
                    }),
                forall|j: int| i <= j < 6 ==> #[trigger] self.channels@[j] == old(self).channels@[j],
            decreases 6 - i,
        {
            if channel_mask & (1u32 << i as u32) != 0 {
                let channel_offset = OpnaRegisters::channel_offset(i);
                let offsets = OpnaRegisters::operator_offsets(i);
                let configs: [OperatorConfig; 4] = [
                    self.registers.operator_config(channel_offset, offsets[0]),
                    self.registers.operator_config(channel_offset, offsets[1]),
                    self.registers.operator_config(channel_offset, offsets[2]),
                    self.registers.operator_config(channel_offset, offsets[3]),
                ];
                assert forall|k: int| 0 <= k < 4 implies (#[trigger] configs@[k]).wf() by {}
                let mut channel = self.channels[i];
                channel.set_algorithm(self.registers.channel_algorithm(channel_offset));
                channel.set_feedback_level(self.registers.channel_feedback(channel_offset));
                let (left, right) = self.registers.channel_pan(channel_offset);
                channel.set_pan(left, right);
                if channel.prepare(configs, lfo_enabled) {
                    self.active_channels = self.active_channels | (1u32 << i as u32);
                }
                self.channels[i] = channel;
            }
            i = i + 1;
        }
        self.modified_channels = 0;
        self.prepare_count = 0;
    }

    /// Advances the engine by one FM sample and returns the new envelope
    /// counter; configuration is refreshed after writes and periodically.
    pub fn clock(&mut self, channel_mask: u32) -> (env_counter: u32)
        requires
            old(self).wf(),
        ensures
            final(self).wf(),
            env_counter == final(self).env_counter,
            env_counter == next_env_counter(old(self).env_counter),
            old(self).modified_channels == 0 && old(self).prepare_count < 4096 ==>
                final(self).prepare_count == old(self).prepare_count + 1,
            old(self).modified_channels != 0 || old(self).prepare_count >= 4096 ==>
                final(self).prepare_count == 0 && final(self).modified_channels == 0,
            final(self).peaks == old(self).peaks,
    {
        if self.modified_channels != 0 || self.prepare_count >= 4096 {
            self.prepare(channel_mask);
        } else {
            self.prepare_count = self.prepare_count + 1;
        }
        self.env_counter = self.env_counter.wrapping_add(1);
        if self.env_counter & 3 == 3 {
            self.env_counter = self.env_counter.wrapping_add(1);
        }
        let raw_pm = self.registers.clock_lfo();
        let mut i: usize = 0;
        while i < CHANNELS
            invariant
                0 <= i <= 6,
                self.wf(),
                -7 <= raw_pm <= 7,
                self.env_counter == next_env_counter(old(self).env_counter),
                old(self).modified_channels == 0 && old(self).prepare_count < 4096 ==>
                    self.prepare_count == old(self).prepare_count + 1,
                old(self).modified_channels != 0 || old(self).prepare_count >= 4096 ==>
                    self.prepare_count == 0 && self.modified_channels == 0,
                self.peaks == old(self).peaks,
            decreases 6 - i,
        {
            if channel_mask & (1u32 << i as u32) != 0 {
                let mut channel = self.channels[i];
                channel.clock_with_lfo(self.env_counter, raw_pm);
                self.channels[i] = channel;
            }
            i = i + 1;
        }
        self.env_counter
    }

    /// Mixes the masked active channels and tracks each channel's peak level.
    pub fn output(&mut self, rshift: u32, clipmax: i32, channel_mask: u32) -> (output: [i32; 2])
        requires
            old(self).wf(),
            rshift < 32,
            clip_ok(*old(self), clipmax),
        ensures
            final(self).wf(),
            final(self).registers == old(self).registers,
            final(self).env_counter == old(self).env_counter,
            final(self).active_channels == old(self).active_channels,
            final(self).modified_channels == old(self).modified_channels,
            final(self).prepare_count == old(self).prepare_count,
            forall|i: int| 0 <= i < 6 ==> #[trigger] final(self).peaks@[i] >= old(self).peaks@[i],
            output@[0] == fm_mix(*old(self), channel_mask, rshift, clipmax, 6).0,
            output@[1] == fm_mix(*old(self), channel_mask, rshift, clipmax, 6).1,
            -0xc0000 <= output@[0] <= 0xc0000,
            -0xc0000 <= output@[1] <= 0xc0000,
    {
        let mut output: [i32; 2] = [0, 0];
        let mask = channel_mask & self.active_channels;
        let mut i: usize = 0;
        while i < CHANNELS
            invariant
                0 <= i <= 6,
                self.wf(),
                rshift < 32,
                clip_ok(*self, clipmax),
                self.registers == old(self).registers,
                self.env_counter == old(self).env_counter,
                self.active_channels == old(self).active_channels,
                self.modified_channels == old(self).modified_channels,
                self.prepare_count == old(self).prepare_count,
                forall|j: int| 0 <= j < 6 ==> #[trigger] self.peaks@[j] >= old(self).peaks@[j],
                -0x20000 * i <= output@[0] <= 0x20000 * i,
                -0x20000 * i <= output@[1] <= 0x20000 * i,
                output@[0] == fm_mix(*old(self), channel_mask, rshift, clipmax, i as int).0,
                output@[1] == fm_mix(*old(self), channel_mask, rshift, clipmax, i as int).1,
                forall|j: int| i <= j < 6 ==> #[trigger] self.channels@[j] == old(self).channels@[j],
                mask == channel_mask & old(self).active_channels,
            decreases 6 - i,
        {
            if mask & (1u32 << i as u32) != 0 {
                let channel_offset = OpnaRegisters::channel_offset(i);
                let am_offset = self.registers.lfo_am_offset(channel_offset);
                let mut channel = self.channels[i];
                assert(ALGORITHM_OPS@[channel.algorithm as int] & 0x380 != 0 ==> clipmax >= 0);
                let channel_output = channel.render(am_offset, rshift, clipmax);
                self.channels[i] = channel;
                let left = if channel_output[0] < 0 { -channel_output[0] } else { channel_output[0] };
                let right = if channel_output[1] < 0 { -channel_output[1] } else { channel_output[1] };
                let magnitude = if left > right { left } else { right };
                if magnitude > self.peaks[i] {
                    self.peaks[i] = magnitude;
                }
                output[0] = output[0] + channel_output[0];
                output[1] = output[1] + channel_output[1];
            }
            i = i + 1;
        }
        output
    }

    /// Returns the per-channel peaks since the last call and clears them.
    pub fn take_peaks(&mut self) -> (peaks: [i32; 6])
        ensures
            peaks == old(self).peaks,
            forall|i: int| 0 <= i < 6 ==> #[trigger] final(self).peaks@[i] == 0,
            final(self).registers == old(self).registers,
            final(self).channels == old(self).channels,
            final(self).env_counter == old(self).env_counter,
            final(self).active_channels == old(self).active_channels,
            final(self).modified_channels == old(self).modified_channels,
            final(self).prepare_count == old(self).prepare_count,
    {
        let peaks = self.peaks;
        self.peaks = [0, 0, 0, 0, 0, 0];
        peaks
    }
}

} // verus!
