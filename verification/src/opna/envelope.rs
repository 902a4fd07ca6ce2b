use vstd::prelude::*;
use super::tables::{attenuation_increment, attenuation_increment_spec};

verus! {

broadcast use crate::bits::group_bit_bounds;

/// Attenuation at which an operator is considered silent.
pub const EG_QUIET: u16 = 0x380;

/// The phases of an FM operator envelope.
#[derive(Clone, Copy, Debug, PartialEq, Eq, Structural)]
pub enum EnvelopeState {
    Depress,
    Attack,
    Decay,
    Sustain,
    Release,
    Reverb,
}

/// The position of a state in the rate table (and in the ordering of states).
pub open spec fn state_index(state: EnvelopeState) -> int {
    match state {
        EnvelopeState::Depress => 0,
        EnvelopeState::Attack => 1,
        EnvelopeState::Decay => 2,
        EnvelopeState::Sustain => 3,
        EnvelopeState::Release => 4,
        EnvelopeState::Reverb => 5,
    }
}

impl EnvelopeState {
    pub fn index(&self) -> (index: usize)
        ensures
            index == state_index(*self),
    {
        match self {
            EnvelopeState::Depress => 0,
            EnvelopeState::Attack => 1,
            EnvelopeState::Decay => 2,
            EnvelopeState::Sustain => 3,
            EnvelopeState::Release => 4,
            EnvelopeState::Reverb => 5,
        }
    }
}

/// The attack/decay/sustain/release generator of one FM operator, with the
/// SSG-EG repeat and invert modes.
#[derive(Clone, Copy, Debug)]
pub struct Envelope {
    pub attenuation: u16,
    pub state: EnvelopeState,
    pub rates: [u8; 6],
    pub sustain: u32,
    pub env_shift: u8,
    pub ssg_enabled: bool,
    pub ssg_mode: u8,
    pub inverted: bool,
    pub key_state: bool,
}

/// Every rate is a 6-bit value, as the register decoder produces.
pub open spec fn rates_wf(rates: [u8; 6]) -> bool {
    forall|i: int| 0 <= i < 6 ==> #[trigger] rates@[i] < 64
}

/// The state after an attack starts; a restart from the SSG cycle keeps the
/// inversion, and a maximal attack rate jumps straight to full volume.
pub open spec fn attack_started(e: Envelope, is_restart: bool) -> Envelope {
    if e.state == EnvelopeState::Attack {
        e
    } else {
        let inverted = if e.ssg_enabled && !is_restart { e.ssg_mode & 4 != 0 } else { e.inverted };
        let attenuation = if e.rates@[1] >= 62 { 0 } else { e.attenuation };
        Envelope { state: EnvelopeState::Attack, inverted, attenuation, ..e }
    }
}

/// The state after a release starts; an inverted SSG envelope is folded back
/// so that the release continues from the level that was heard.
pub open spec fn release_started(e: Envelope) -> Envelope {
    if state_index(e.state) >= 4 {
        e
    } else if e.ssg_enabled && e.inverted {
        Envelope {
            state: EnvelopeState::Release,
            attenuation: (vstd::wrapping::u32_specs::wrapping_sub(0x200, e.attenuation as u32) & 0x3ff) as u16,
            inverted: false,
            ..e
        }
    } else {
        Envelope { state: EnvelopeState::Release, ..e }
    }
}

/// The SSG-EG step taken once the attenuation reaches the half-way bit.
pub open spec fn ssg_stepped(e: Envelope) -> Envelope {
    if e.attenuation & 0x200 == 0 {
        e
    } else {
        let mode = e.ssg_mode;
        let e1 = if mode & 1 != 0 {
            let inverted = ((mode >> 2) & 1) != ((mode >> 1) & 1);
            let attenuation = if e.state != EnvelopeState::Attack {
                if inverted { 0x200u16 } else { 0x3ffu16 }
            } else {
                e.attenuation
            };
            Envelope { inverted, attenuation, ..e }
        } else {
            let inverted = e.inverted != (mode & 2 != 0);
            let e0 = Envelope { inverted, ..e };
            if e0.state == EnvelopeState::Decay || e0.state == EnvelopeState::Sustain {
                attack_started(e0, true)
            } else {
                e0
            }
        };
        if e1.state == EnvelopeState::Release {
            Envelope { attenuation: 0x3ff, ..e1 }
        } else {
            e1
        }
    }
}

/// The state used for the rate lookup: a finished attack becomes a decay and
/// a decay that reached the sustain level becomes a sustain.
pub open spec fn settled(e: Envelope) -> Envelope {
    let e1 = if e.state == EnvelopeState::Attack && e.attenuation == 0 {
        Envelope { state: EnvelopeState::Decay, ..e }
    } else {
        e
    };
    if e1.state == EnvelopeState::Decay && e1.attenuation as u32 >= e1.sustain {
        Envelope { state: EnvelopeState::Sustain, ..e1 }
    } else {
        e1
    }
}

/// One attack step: the attenuation falls by a fraction of itself.
pub open spec fn attack_step(attenuation: u16, increment: u32) -> u16 {
    (attenuation - (((attenuation + 1) * increment + 15) / 16)) as u16
}

/// One decay/sustain/release step; SSG envelopes move four times as fast and
/// stop at the half-way level.
pub open spec fn decay_step(attenuation: u16, increment: u32, ssg_enabled: bool) -> u16 {
    let stepped = if !ssg_enabled {
        vstd::wrapping::u16_specs::wrapping_add(attenuation, increment as u16)
    } else if attenuation < 0x200 {
        vstd::wrapping::u16_specs::wrapping_add(attenuation, (4 * increment) as u16)
    } else {
        attenuation
    };
    if stepped >= 0x400 { 0x3ff } else { stepped }
}

/// The envelope after one envelope-generator tick with the given counter.
pub open spec fn envelope_ticked(e: Envelope, counter: u32) -> Envelope {
    let e1 = settled(e);
    let rate = e1.rates@[state_index(e1.state)] as u32;
    let rate_shift = rate >> 2;
    let shifted = counter << rate_shift;
    if shifted & 0x7ff != 0 {
        e1
    } else {
        let bits = (shifted >> (if rate_shift <= 11 { 11 } else { rate_shift })) & 7;
        let increment = attenuation_increment_spec(rate, bits);
        if e1.state == EnvelopeState::Attack {
            if rate < 62 {
                Envelope { attenuation: attack_step(e1.attenuation, increment), ..e1 }
            } else {
                e1
            }
        } else {
            Envelope { attenuation: decay_step(e1.attenuation, increment, e1.ssg_enabled), ..e1 }
        }
    }
}

/// The envelope after one sample clock: the SSG step, then an envelope tick
/// on every fourth counter value.
pub open spec fn envelope_clocked(e: Envelope, counter: u32) -> Envelope {
    let e1 = if e.ssg_enabled { ssg_stepped(e) } else { Envelope { inverted: false, ..e } };
    if counter & 3 == 0 { envelope_ticked(e1, counter >> 2) } else { e1 }
}

/// The attenuation that reaches the output: the shifted envelope, possibly
/// inverted, plus amplitude modulation and total level, capped at silence.
pub open spec fn effective_attenuation_spec(
    e: Envelope,
    am_enabled: bool,
    am_offset: u32,
    total_level: u32,
) -> u32 {
    let r0 = (e.attenuation as u32) >> (e.env_shift as u32);
    let r1 = if e.inverted { vstd::wrapping::u32_specs::wrapping_sub(0x200, r0) & 0x3ff } else { r0 };
    let r2 = if am_enabled { vstd::wrapping::u32_specs::wrapping_add(r1, am_offset) } else { r1 };
    let r3 = vstd::wrapping::u32_specs::wrapping_add(r2, total_level);
    if r3 < 0x3ff { r3 } else { 0x3ff }
}

impl Envelope {
    pub open spec fn wf(&self) -> bool {
        rates_wf(self.rates)
    }

    /// The envelope of a freshly created operator: released and silent.
    pub open spec fn new_spec() -> Envelope {
        Envelope {
            attenuation: 0x3ff,
            state: EnvelopeState::Release,
            rates: [0u8, 0, 0, 0, 0, 0],
            sustain: 0x3ff,
            env_shift: 0,
            ssg_enabled: false,
            ssg_mode: 0,
            inverted: false,
            key_state: false,
        }
    }

    pub fn new() -> (e: Self)
        ensures
            e.wf(),
            e == Envelope::new_spec(),
    {
        Envelope {
            attenuation: 0x3ff,
            state: EnvelopeState::Release,
            rates: [0, 0, 0, 0, 0, 0],
            sustain: 0x3ff,
            env_shift: 0,
            ssg_enabled: false,
            ssg_mode: 0,
            inverted: false,
            key_state: false,
        }
    }

    pub fn set_rates(&mut self, rates: [u8; 6])
        requires
            rates_wf(rates),
        ensures
            *final(self) == (Envelope { rates, ..*old(self) }),
    {
        self.rates = rates;
    }

    pub fn set_sustain(&mut self, sustain: u32)
        ensures
            *final(self) == (Envelope { sustain, ..*old(self) }),
    {
        self.sustain = sustain;
    }

    pub fn set_ssg(&mut self, enabled: bool, mode: u8)
        ensures
            *final(self) == (Envelope { ssg_enabled: enabled, ssg_mode: mode, ..*old(self) }),
    {
        self.ssg_enabled = enabled;
        self.ssg_mode = mode;
    }

    /// Applies a key state; a change starts an attack (on) or a release (off).
    /// Returns whether a key-on edge was seen.
    pub fn set_key_state(&mut self, on: bool) -> (key_on: bool)
        ensures
            on == old(self).key_state ==> *final(self) == *old(self) && !key_on,
            on != old(self).key_state ==> key_on == on && *final(self) == (if on {
                attack_started(Envelope { key_state: true, ..*old(self) }, false)
            } else {
                release_started(Envelope { key_state: false, ..*old(self) })
            }),
    {
        if on == self.key_state {
            return false;
        }
        self.key_state = on;
        if on {
            self.start_attack(false);
        } else {
            self.start_release();
        }
        on
    }

    pub fn reset(&mut self)
        ensures
            *final(self) == (Envelope {
                attenuation: 0x3ff,
                state: EnvelopeState::Release,
                inverted: false,
                key_state: false,
                ..*old(self)
            }),
    {
        self.attenuation = 0x3ff;
        self.state = EnvelopeState::Release;
        self.inverted = false;
        self.key_state = false;
    }

    pub fn state(&self) -> (state: EnvelopeState)
        ensures
            state == self.state,
    {
        self.state
    }

    pub fn attenuation(&self) -> (attenuation: u16)
        ensures
            attenuation == self.attenuation,
    {
        self.attenuation
    }

    pub fn inverted(&self) -> (inverted: bool)
        ensures
            inverted == self.inverted,
    {
        self.inverted
    }

    pub fn configure_volume_state(&mut self, attenuation: u16, env_shift: u8, inverted: bool)
        ensures
            *final(self) == (Envelope { attenuation, env_shift, inverted, ..*old(self) }),
    {
        self.attenuation = attenuation;
        self.env_shift = env_shift;
        self.inverted = inverted;
    }

    pub fn effective_attenuation(&self, am_enabled: bool, am_offset: u32, total_level: u32) -> (attenuation: u32)
        requires
            self.env_shift < 32,
        ensures
            attenuation == effective_attenuation_spec(*self, am_enabled, am_offset, total_level),
            attenuation <= 0x3ff,
    {
        let mut result = (self.attenuation as u32) >> (self.env_shift as u32);
        if self.inverted {
            result = 0x200u32.wrapping_sub(result) & 0x3ff;
        }
        if am_enabled {
            result = result.wrapping_add(am_offset);
        }
        result = result.wrapping_add(total_level);
        if result < 0x3ff {
            result
        } else {
            0x3ff
        }
    }

    pub fn clock(&mut self, env_counter: u32)
        requires
            old(self).wf(),
        ensures
            final(self).wf(),
            *final(self) == envelope_clocked(*old(self), env_counter),
    {
        if self.ssg_enabled {
            self.clock_ssg_state();
        } else {
            self.inverted = false;
        }
        if env_counter & 3 == 0 {
            self.clock_envelope(env_counter >> 2);
        }
    }

    fn start_attack(&mut self, is_restart: bool)
        ensures
            *final(self) == attack_started(*old(self), is_restart),
    {
        if self.state == EnvelopeState::Attack {
            return;
        }
        self.state = EnvelopeState::Attack;
        if self.ssg_enabled && !is_restart {
            self.inverted = self.ssg_mode & 4 != 0;
        }
        if self.rates[1] >= 62 {
            self.attenuation = 0;
        }
    }

    fn start_release(&mut self)
        ensures
            *final(self) == release_started(*old(self)),
    {
        if self.state.index() >= 4 {
            return;
        }
        self.state = EnvelopeState::Release;
        if self.ssg_enabled && self.inverted {
            self.attenuation = (0x200u32.wrapping_sub(self.attenuation as u32) & 0x3ff) as u16;
            self.inverted = false;
        }
    }

    fn clock_ssg_state(&mut self)
        ensures
            *final(self) == ssg_stepped(*old(self)),
    {
        if self.attenuation & 0x200 == 0 {
            return;
        }
        let mode = self.ssg_mode;
        if mode & 1 != 0 {
            self.inverted = ((mode >> 2) & 1) != ((mode >> 1) & 1);
            if self.state != EnvelopeState::Attack {
                self.attenuation = if self.inverted { 0x200 } else { 0x3ff };
            }
        } else {
            self.inverted = self.inverted != (mode & 2 != 0);
            if self.state == EnvelopeState::Decay || self.state == EnvelopeState::Sustain {
                self.start_attack(true);
            }
        }
        if self.state == EnvelopeState::Release {
            self.attenuation = 0x3ff;
        }
    }

    fn clock_envelope(&mut self, env_counter: u32)
        requires
            old(self).wf(),
        ensures
            *final(self) == envelope_ticked(*old(self), env_counter),
    {
        if self.state == EnvelopeState::Attack && self.attenuation == 0 {
            self.state = EnvelopeState::Decay;
        }
        if self.state == EnvelopeState::Decay && self.attenuation as u32 >= self.sustain {
            self.state = EnvelopeState::Sustain;
        }
        let rate = self.rates[self.state.index()] as u32;
        let rate_shift = rate >> 2;
        proof {
            vstd::bits::lemma_u32_shr_is_div(rate, 2);
            vstd::arithmetic::power2::lemma2_to64();
        }
        let shifted = env_counter << rate_shift;
        if shifted & 0x7ff != 0 {
            return;
        }
        let bits = (shifted >> (if rate_shift <= 11 { 11 } else { rate_shift })) & 7;
        let increment = attenuation_increment(rate, bits);
        if self.state == EnvelopeState::Attack {
            if rate < 62 {
                let attenuation = self.attenuation as u32;
                assert((attenuation + 1) * increment <= 0x10000 * 15) by (nonlinear_arith)
                    requires attenuation <= 0xffff, increment <= 15;
                let magnitude = ((attenuation + 1) * increment + 15) / 16;
                self.attenuation = (attenuation as i32 - magnitude as i32) as u16;
            }
        } else {
            let mut attenuation = self.attenuation;
            if !self.ssg_enabled {
                attenuation = attenuation.wrapping_add(increment as u16);
            } else if attenuation < 0x200 {
                attenuation = attenuation.wrapping_add((4 * increment) as u16);
            }
            if attenuation >= 0x400 {
                attenuation = 0x3ff;
            }
            self.attenuation = attenuation;
        }
    }
}

} // verus!
