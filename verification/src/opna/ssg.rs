use vstd::prelude::*;

verus! {

broadcast use crate::bits::group_bit_bounds;

/// Output level of each of the 32 SSG volume steps.
pub const AMPLITUDES: [i32; 32] = [
    0, 32, 78, 141, 178, 222, 262, 306, 369, 441, 509, 585, 701, 836, 965, 1112, 1334, 1595, 1853,
    2146, 2576, 3081, 3576, 4135, 5000, 6006, 7023, 8155, 9963, 11976, 14132, 16382,
];

/// The three square-wave channels of the OPNA's SSG part, with their noise
/// generator and shared envelope.
#[derive(Clone, Copy, Debug)]
pub struct Ssg {
    pub registers: [u8; 16],
    pub tone_count: [u32; 3],
    pub tone_state: [u32; 3],
    pub envelope_count: u32,
    pub envelope_state: u32,
    pub noise_count: u32,
    pub noise_state: u32,
}

/// The 12-bit tone period of a channel.
pub open spec fn tone_period_spec(regs: Seq<u8>, channel: int) -> u32 {
    (regs[channel * 2] as u32) | (((regs[channel * 2 + 1] & 0x0f) as u32) << 8)
}

/// The 5-bit noise period.
pub open spec fn noise_period_spec(regs: Seq<u8>) -> u32 {
    (regs[6] & 0x1f) as u32
}

/// The 16-bit envelope period.
pub open spec fn envelope_period_spec(regs: Seq<u8>) -> u32 {
    (regs[0x0b] as u32) | ((regs[0x0c] as u32) << 8)
}

/// One step of the 17-bit noise shift register.
pub open spec fn noise_shifted(state: u32) -> u32 {
    let feedback = (state & 1) ^ ((state >> 3) & 1);
    (state ^ (feedback << 17)) >> 1
}

/// The SSG after one clock of its tone, noise and envelope counters.
pub open spec fn ssg_clocked(s: Ssg) -> Ssg {
    let tone_count = Seq::new(3, |c: int| {
        let n = vstd::wrapping::u32_specs::wrapping_add(s.tone_count@[c], 1);
        if n >= tone_period_spec(s.registers@, c) { 0u32 } else { n }
    });
    let tone_state = Seq::new(3, |c: int| {
        let n = vstd::wrapping::u32_specs::wrapping_add(s.tone_count@[c], 1);
        if n >= tone_period_spec(s.registers@, c) { (1 - s.tone_state@[c]) as u32 } else { s.tone_state@[c] }
    });
    let nc = vstd::wrapping::u32_specs::wrapping_add(s.noise_count, 1);
    let noise_fires = (nc >> 1) >= noise_period_spec(s.registers@) && nc != 1;
    let ec = vstd::wrapping::u32_specs::wrapping_add(s.envelope_count, 1);
    let env_fires = ec >= envelope_period_spec(s.registers@);
    Ssg {
        registers: s.registers,
        tone_count: [tone_count[0], tone_count[1], tone_count[2]],
        tone_state: [tone_state[0], tone_state[1], tone_state[2]],
        noise_count: if noise_fires { 0 } else { nc },
        noise_state: if noise_fires { noise_shifted(s.noise_state) } else { s.noise_state },
        envelope_count: if env_fires { 0 } else { ec },
        envelope_state: if env_fires { vstd::wrapping::u32_specs::wrapping_add(s.envelope_state, 1) } else { s.envelope_state },
    }
}

/// Whether the envelope shape has finished its first cycle and now holds.
pub open spec fn envelope_holds(regs: Seq<u8>, state: u32) -> bool {
    let shape = regs[0x0d];
    (shape & 1 != 0 || shape & 8 == 0) && state >= 32
}

/// The envelope volume step (0 to 31) for a shape and envelope position.
pub open spec fn envelope_volume_spec(regs: Seq<u8>, state: u32) -> u32 {
    let shape = regs[0x0d];
    let cont = shape & 8 != 0;
    let attack = shape & 4 != 0;
    let alternate = shape & 2 != 0;
    if envelope_holds(regs, state) {
        if attack != alternate && cont { 31 } else { 0 }
    } else {
        let rising = if alternate { attack != ((state >> 5) & 1 == 1) } else { attack };
        if rising { state & 31 } else { (31 - (state & 31)) as u32 }
    }
}

/// The volume step a channel plays at, given the envelope volume.
pub open spec fn channel_volume_spec(s: Ssg, channel: int, envelope_volume: u32) -> u32 {
    let noise_on = (((s.registers@[7] >> ((3 + channel) as u8)) & 1) as u32) | s.noise_state;
    let tone_on = (((s.registers@[7] >> (channel as u8)) & 1) as u32) | s.tone_state@[channel];
    if noise_on & tone_on == 0 {
        0
    } else if s.registers@[8 + channel] & 0x10 != 0 {
        envelope_volume
    } else {
        let amplitude = (s.registers@[8 + channel] & 0x0f) as u32;
        if amplitude == 0 { 0 } else { (amplitude * 2 + 1) as u32 }
    }
}

impl Ssg {
    pub open spec fn wf(&self) -> bool {
        forall|c: int| 0 <= c < 3 ==> #[trigger] self.tone_state@[c] <= 1
    }

    pub fn new() -> (ssg: Self)
        ensures
            ssg.wf(),
            ssg.registers@ == Seq::new(16, |i: int| 0u8),
            ssg.envelope_state == 0,
            ssg.noise_state == 1,
    {
        let ssg = Ssg {
            registers: [0; 16],
            tone_count: [0, 0, 0],
            tone_state: [0, 0, 0],
            envelope_count: 0,
            envelope_state: 0,
            noise_count: 0,
            noise_state: 1,
        };
        assert(ssg.registers@ =~= Seq::new(16, |i: int| 0u8));
        ssg
    }

    pub fn reset(&mut self)
        ensures
            final(self).wf(),
            final(self).registers@ == Seq::new(16, |i: int| 0u8),
            final(self).tone_count@ == seq![0u32, 0, 0],
            final(self).tone_state@ == seq![0u32, 0, 0],
            final(self).envelope_count == 0,
            final(self).envelope_state == 0,
            final(self).noise_count == 0,
            final(self).noise_state == 1,
    {
        self.registers = [0; 16];
        self.tone_count = [0, 0, 0];
        self.tone_state = [0, 0, 0];
        self.envelope_count = 0;
        self.envelope_state = 0;
        self.noise_count = 0;
        self.noise_state = 1;
        assert(self.registers@ =~= Seq::new(16, |i: int| 0u8));
        assert(self.tone_count@ =~= seq![0u32, 0, 0]);
        assert(self.tone_state@ =~= seq![0u32, 0, 0]);
    }

    pub fn read(&self, register: usize) -> (value: u8)
        requires
            register < 16,
        ensures
            value == self.registers@[register as int],
    {
        self.registers[register]
    }

    /// Stores a register; writing the envelope shape restarts the envelope.
    pub fn write(&mut self, register: usize, data: u8)
        requires
            old(self).wf(),
            register < 16,
        ensures
            final(self).wf(),
            final(self).registers@ == old(self).registers@.update(register as int, data),
            final(self).envelope_state == (if register == 0x0d { 0 } else { old(self).envelope_state }),
            final(self).tone_count == old(self).tone_count,
            final(self).tone_state == old(self).tone_state,
            final(self).envelope_count == old(self).envelope_count,
            final(self).noise_count == old(self).noise_count,
            final(self).noise_state == old(self).noise_state,
    {
        self.registers[register] = data;
        if register == 0x0d {
            self.envelope_state = 0;
        }
    }

    pub fn clock(&mut self)
        requires
            old(self).wf(),
        ensures
            final(self).wf(),
            *final(self) == ssg_clocked(*old(self)),
    {
        let ghost start = *self;
        let mut channel: usize = 0;
        while channel < 3
            invariant
                0 <= channel <= 3,
                self.wf(),
                self.registers == start.registers,
                self.noise_count == start.noise_count,
                self.noise_state == start.noise_state,
                self.envelope_count == start.envelope_count,
                self.envelope_state == start.envelope_state,
                forall|c: int| 0 <= c < channel ==> #[trigger] self.tone_count@[c] == ssg_clocked(start).tone_count@[c],
                forall|c: int| 0 <= c < channel ==> #[trigger] self.tone_state@[c] == ssg_clocked(start).tone_state@[c],
                forall|c: int| channel <= c < 3 ==> #[trigger] self.tone_count@[c] == start.tone_count@[c],
                forall|c: int| channel <= c < 3 ==> #[trigger] self.tone_state@[c] == start.tone_state@[c],
            decreases 3 - channel,
        {
            let count = self.tone_count[channel].wrapping_add(1);
            if count >= self.channel_tone_period(channel) {
                self.tone_state[channel] = 1 - self.tone_state[channel];
                self.tone_count[channel] = 0;
            } else {
                self.tone_count[channel] = count;
            }
            channel = channel + 1;
        }

        self.noise_count = self.noise_count.wrapping_add(1);
        if (self.noise_count >> 1) >= self.noise_period() && self.noise_count != 1 {
            let feedback = (self.noise_state & 1) ^ ((self.noise_state >> 3) & 1);
            self.noise_state = (self.noise_state ^ (feedback << 17)) >> 1;
            self.noise_count = 0;
        }

        self.envelope_count = self.envelope_count.wrapping_add(1);
        if self.envelope_count >= self.envelope_period() {
            self.envelope_state = self.envelope_state.wrapping_add(1);
            self.envelope_count = 0;
        }
        assert(self.tone_count =~= ssg_clocked(start).tone_count);
        assert(self.tone_state =~= ssg_clocked(start).tone_state);
    }

    /// Writes the amplitude of each channel; a finished one-shot envelope is
    /// pinned at the end of its cycle.
    pub fn output(&mut self, output: &mut [i32; 3])
        requires
            old(self).wf(),
        ensures
            final(self).wf(),
            final(self).envelope_state == (if envelope_holds(old(self).registers@, old(self).envelope_state) {
                32
            } else {
                old(self).envelope_state
            }),
            final(self).registers == old(self).registers,
            final(self).tone_count == old(self).tone_count,
            final(self).tone_state == old(self).tone_state,
            final(self).envelope_count == old(self).envelope_count,
            final(self).noise_count == old(self).noise_count,
            final(self).noise_state == old(self).noise_state,
            forall|c: int| 0 <= c < 3 ==> #[trigger] final(output)@[c] == AMPLITUDES@[channel_volume_spec(
                *old(self),
                c,
                envelope_volume_spec(old(self).registers@, old(self).envelope_state),
            ) as int],
            forall|c: int| 0 <= c < 3 ==> 0 <= #[trigger] final(output)@[c] <= 16382,
    {
        let envelope_volume = self.envelope_volume();
        let mut channel: usize = 0;
        while channel < 3
            invariant
                0 <= channel <= 3,
                envelope_volume == envelope_volume_spec(old(self).registers@, old(self).envelope_state),
                envelope_volume <= 31,
                self.registers == old(self).registers,
                self.tone_state == old(self).tone_state,
                self.noise_state == old(self).noise_state,
                self.wf(),
                forall|c: int| 0 <= c < channel ==> #[trigger] output@[c] == AMPLITUDES@[channel_volume_spec(
                    *old(self),
                    c,
                    envelope_volume,
                ) as int],
                forall|c: int| 0 <= c < channel ==> 0 <= #[trigger] output@[c] <= 16382,
            decreases 3 - channel,
        {
            let noise_on = self.channel_noise_enable_n(channel) | self.noise_state;
            let tone_on = self.channel_tone_enable_n(channel) | self.tone_state[channel];
            let volume = if noise_on & tone_on == 0 {
                0
            } else if self.channel_envelope_enable(channel) {
                envelope_volume
            } else {
                let amplitude = self.channel_amplitude(channel);
                if amplitude == 0 { 0 } else { amplitude * 2 + 1 }
            };
            proof { lemma_amplitudes_bounded(volume as int); }
            output[channel] = AMPLITUDES[volume as usize];
            channel = channel + 1;
        }
    }

    pub fn tone_state(&self, channel: usize) -> (state: u32)
        requires
            channel < 3,
        ensures
            state == self.tone_state@[channel as int],
    {
        self.tone_state[channel]
    }

    pub fn noise_state(&self) -> (state: u32)
        ensures
            state == self.noise_state,
    {
        self.noise_state
    }

    pub fn envelope_state(&self) -> (state: u32)
        ensures
            state == self.envelope_state,
    {
        self.envelope_state
    }

    pub fn channel_tone_period(&self, channel: usize) -> (period: u32)
        requires
            channel < 3,
        ensures
            period == tone_period_spec(self.registers@, channel as int),
    {
        (self.registers[channel * 2] as u32) | (((self.registers[channel * 2 + 1] & 0x0f) as u32) << 8)
    }

    pub fn noise_period(&self) -> (period: u32)
        ensures
            period == noise_period_spec(self.registers@),
    {
        (self.registers[0x06] & 0x1f) as u32
    }

    pub fn envelope_period(&self) -> (period: u32)
        ensures
            period == envelope_period_spec(self.registers@),
    {
        (self.registers[0x0b] as u32) | ((self.registers[0x0c] as u32) << 8)
    }

    pub fn channel_noise_enable_n(&self, channel: usize) -> (disabled: u32)
        requires
            channel < 3,
        ensures
            disabled == ((self.registers@[7] >> ((3 + channel) as u8)) & 1) as u32,
    {
        ((self.registers[0x07] >> ((3 + channel) as u8)) & 1) as u32
    }

    pub fn channel_tone_enable_n(&self, channel: usize) -> (disabled: u32)
        requires
            channel < 3,
        ensures
            disabled == ((self.registers@[7] >> (channel as u8)) & 1) as u32,
    {
        ((self.registers[0x07] >> (channel as u8)) & 1) as u32
    }

    pub fn channel_envelope_enable(&self, channel: usize) -> (enabled: bool)
        requires
            channel < 3,
        ensures
            enabled == (self.registers@[8 + channel] & 0x10 != 0),
    {
        self.registers[0x08 + channel] & 0x10 != 0
    }

    pub fn channel_amplitude(&self, channel: usize) -> (amplitude: u32)
        requires
            channel < 3,
        ensures
            amplitude == (self.registers@[8 + channel] & 0x0f) as u32,
            amplitude <= 15,
    {
        (self.registers[0x08 + channel] & 0x0f) as u32
    }

    /// The envelope volume step; a finished one-shot shape is held at position 32.
    pub fn envelope_volume(&mut self) -> (volume: u32)
        ensures
            volume == envelope_volume_spec(old(self).registers@, old(self).envelope_state),
            volume <= 31,
            *final(self) == (Ssg {
                envelope_state: if envelope_holds(old(self).registers@, old(self).envelope_state) {
                    32
                } else {
                    old(self).envelope_state
                },
                ..*old(self)
            }),
    {
        let shape = self.registers[0x0d];
        let cont = shape & 8 != 0;
        let attack = shape & 4 != 0;
        let alternate = shape & 2 != 0;
        if (shape & 1 != 0 || shape & 8 == 0) && self.envelope_state >= 32 {
            self.envelope_state = 32;
            if attack != alternate && cont {
                31
            } else {
                0
            }
        } else {
            let state = self.envelope_state;
            let rising = if alternate { attack != ((state >> 5) & 1 == 1) } else { attack };
            if rising {
                state & 31
            } else {
                31 - (state & 31)
            }
        }
    }
}

/// A continuing shape that does not hold runs in 32-step halves: with
/// alternate set (triangles, shapes 0x0A and 0x0E) each half runs the
/// other way, so a step and the one 32 steps on add up to 31; without it
/// (sawtooths, 0x08 and 0x0C) each half repeats the same ramp.
pub proof fn law_envelope_halves(regs: Seq<u8>, state: u32)
    requires
        regs[0x0d] & 8 != 0,
        regs[0x0d] & 1 == 0,
        state <= u32::MAX - 32,
    ensures
        regs[0x0d] & 2 != 0 ==> envelope_volume_spec(regs, (state + 32) as u32) + envelope_volume_spec(regs, state) == 31,
        regs[0x0d] & 2 == 0 ==> envelope_volume_spec(regs, (state + 32) as u32) == envelope_volume_spec(regs, state),
{
    let next = (state + 32) as u32;
    assert(next & 31 == state & 31 && ((next >> 5) & 1 == 1) != ((state >> 5) & 1 == 1) && state & 31 <= 31)
        by (bit_vector)
        requires
            next == state + 32,
            state <= u32::MAX - 32;
}

/// The first 32 steps of every shape are one ramp: up from 0 to 31 when
/// the attack bit is set, down from 31 to 0 when it is clear.
pub proof fn law_envelope_first_ramp(regs: Seq<u8>, state: u32)
    requires
        state < 32,
    ensures
        regs[0x0d] & 4 != 0 ==> envelope_volume_spec(regs, state) == state,
        regs[0x0d] & 4 == 0 ==> envelope_volume_spec(regs, state) == 31 - state,
{
    vstd::bits::lemma_low_bits_mask_values();
    vstd::arithmetic::power2::lemma2_to64();
    vstd::bits::lemma_u32_low_bits_mask_is_mod(state, 5);
    vstd::bits::lemma_u32_shr_is_div(state, 5);
    vstd::bits::lemma_u32_low_bits_mask_is_mod(0, 1);
}

/// After the first ramp a shape that holds stays put: at 31 where the
/// ramp is continued and exactly one of attack and alternate is set
/// (shapes 0x0B and 0x0D), at 0 otherwise (all shapes without continue,
/// 0x09 and 0x0F).
pub proof fn law_envelope_hold_level(regs: Seq<u8>, state: u32)
    requires
        regs[0x0d] & 1 != 0 || regs[0x0d] & 8 == 0,
        state >= 32,
    ensures
        ({
            let shape = regs[0x0d];
            let top = shape & 8 != 0 && ((shape & 4 != 0) != (shape & 2 != 0));
            &&& top ==> envelope_volume_spec(regs, state) == 31
            &&& !top ==> envelope_volume_spec(regs, state) == 0
        }),
{
}

proof fn lemma_amplitudes_bounded(index: int)
    requires
        0 <= index < 32,
    ensures
        0 <= AMPLITUDES@[index] <= 16382,
{
    assert(forall|i: int| 0 <= i < 32 ==> 0 <= #[trigger] AMPLITUDES@[i] <= 16382);
}

} // verus!
