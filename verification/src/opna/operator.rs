use vstd::prelude::*;
use super::envelope::{
    Envelope, EnvelopeState, EG_QUIET, attack_started, effective_attenuation_spec,
    envelope_clocked, rates_wf, release_started,
};
use super::lfo::{opn_phase_step, phase_step_base, phase_step_spec};
use super::registers::OperatorConfig;
use super::tables::{
    abs_sin_attenuation, abs_sin_attenuation_spec, attenuation_to_volume,
    attenuation_to_volume_spec,
};

verus! {

broadcast use crate::bits::group_bit_bounds;

/// One FM operator: a phase accumulator feeding a sine lookup, scaled by its
/// envelope.
#[derive(Clone, Copy, Debug)]
pub struct Operator {
    pub phase: u32,
    pub phase_step: u32,
    pub block_freq: u32,
    pub detune: i32,
    pub multiple: u32,
    pub pm_sensitivity: u8,
    pub dynamic_phase: bool,
    pub envelope: Envelope,
    pub am_enabled: bool,
    pub total_level: u32,
    pub keyon_live: bool,
}

/// The output of an operator at a phase: a signed volume, or silence once the
/// envelope is past the quiet level.
#[verifier::opaque]
pub open spec fn compute_volume_spec(op: Operator, phase: u32, am_offset: u32) -> i32 {
    if op.envelope.attenuation > EG_QUIET {
        0
    } else {
        let sine = abs_sin_attenuation_spec(phase & 0x3ff);
        let envelope = effective_attenuation_spec(op.envelope, op.am_enabled, am_offset, op.total_level);
        let volume = attenuation_to_volume_spec((sine + envelope * 4) as u32) as i32;
        if phase & 0x200 != 0 { (-volume) as i32 } else { volume }
    }
}

/// The phase increment used for one clock: recomputed under phase modulation,
/// otherwise the step computed when the operator was prepared.
pub open spec fn clock_step(op: Operator, raw_pm: i32) -> u32 {
    if op.dynamic_phase {
        phase_step_spec(op.block_freq, op.detune, op.multiple, op.pm_sensitivity, raw_pm)
    } else {
        op.phase_step
    }
}

/// The operator after one clock with a given phase increment.
pub open spec fn operator_clocked(op: Operator, env_counter: u32, step: u32) -> Operator {
    Operator {
        envelope: envelope_clocked(op.envelope, env_counter),
        phase: vstd::wrapping::u32_specs::wrapping_add(op.phase, step),
        ..op
    }
}

/// The operator after its configuration is loaded and its key state applied.
pub open spec fn operator_prepared(op: Operator, config: OperatorConfig, lfo_enabled: bool) -> Operator {
    let envelope = Envelope {
        rates: config.rates,
        sustain: config.sustain,
        ssg_enabled: config.ssg_enabled,
        ssg_mode: config.ssg_mode,
        ..op.envelope
    };
    let key_on_edge = op.keyon_live != envelope.key_state && op.keyon_live;
    let keyed = if op.keyon_live == envelope.key_state {
        envelope
    } else if op.keyon_live {
        attack_started(Envelope { key_state: true, ..envelope }, false)
    } else {
        release_started(Envelope { key_state: false, ..envelope })
    };
    Operator {
        block_freq: config.block_freq,
        detune: config.detune,
        multiple: config.multiple,
        pm_sensitivity: config.pm_sensitivity,
        dynamic_phase: lfo_enabled && config.pm_sensitivity != 0,
        phase_step: phase_step_spec(config.block_freq, config.detune, config.multiple, config.pm_sensitivity, 0),
        envelope: keyed,
        am_enabled: config.am_enabled,
        total_level: config.total_level,
        phase: if key_on_edge { 0 } else { op.phase },
        ..op
    }
}

proof fn lemma_phase_step_base_bounded(block_freq: u32, detune: i32, pm_sensitivity: u8, raw_pm: i32)
    ensures
        phase_step_base(block_freq, detune, pm_sensitivity, raw_pm) <= 0x1ffff,
{
}

impl Operator {
    /// A freshly created operator: silent, with a unit frequency multiple.
    pub open spec fn new_spec() -> Operator {
        Operator {
            phase: 0,
            phase_step: 0,
            block_freq: 0,
            detune: 0,
            multiple: 1,
            pm_sensitivity: 0,
            dynamic_phase: false,
            envelope: Envelope::new_spec(),
            am_enabled: false,
            total_level: 0,
            keyon_live: false,
        }
    }

    /// The bounds that keep every operator computation inside its integer types.
    pub open spec fn wf(&self) -> bool {
        &&& self.envelope.wf()
        &&& self.multiple <= 30
        &&& self.pm_sensitivity < 8
    }

    pub fn new() -> (op: Self)
        ensures
            op.wf(),
            op == Operator::new_spec(),
    {
        Operator {
            phase: 0,
            phase_step: 0,
            block_freq: 0,
            detune: 0,
            multiple: 1,
            pm_sensitivity: 0,
            dynamic_phase: false,
            envelope: Envelope::new(),
            am_enabled: false,
            total_level: 0,
            keyon_live: false,
        }
    }

    pub fn reset(&mut self)
        requires
            old(self).wf(),
        ensures
            final(self).wf(),
            *final(self) == (Operator {
                phase: 0,
                phase_step: 0,
                block_freq: 0,
                detune: 0,
                multiple: 1,
                pm_sensitivity: 0,
                dynamic_phase: false,
                envelope: Envelope {
                    attenuation: 0x3ff,
                    state: EnvelopeState::Release,
                    inverted: false,
                    key_state: false,
                    ..old(self).envelope
                },
                am_enabled: false,
                total_level: 0,
                keyon_live: false,
            }),
    {
        self.phase = 0;
        self.phase_step = 0;
        self.block_freq = 0;
        self.detune = 0;
        self.multiple = 1;
        self.pm_sensitivity = 0;
        self.dynamic_phase = false;
        self.envelope.reset();
        self.am_enabled = false;
        self.total_level = 0;
        self.keyon_live = false;
    }

    pub fn set_phase_step(&mut self, phase_step: u32)
        ensures
            *final(self) == (Operator { phase_step, ..*old(self) }),
    {
        self.phase_step = phase_step;
    }

    pub fn set_phase_raw(&mut self, phase: u32)
        ensures
            *final(self) == (Operator { phase, ..*old(self) }),
    {
        self.phase = phase;
    }

    pub fn keyonoff(&mut self, on: bool)
        ensures
            *final(self) == (Operator { keyon_live: on, ..*old(self) }),
    {
        self.keyon_live = on;
    }

    /// Loads a decoded configuration and applies the pending key state; a key-on
    /// edge restarts the phase. Returns whether the operator can be heard.
    pub fn prepare(&mut self, config: OperatorConfig, lfo_enabled: bool) -> (active: bool)
        requires
            old(self).wf(),
            config.wf(),
        ensures
            final(self).wf(),
            *final(self) == operator_prepared(*old(self), config, lfo_enabled),
            active == (final(self).envelope.state != EnvelopeState::Release
                || final(self).envelope.attenuation < EG_QUIET),
    {
        self.block_freq = config.block_freq;
        self.detune = config.detune;
        self.multiple = config.multiple;
        self.pm_sensitivity = config.pm_sensitivity;
        self.dynamic_phase = lfo_enabled && config.pm_sensitivity != 0;
        proof { lemma_phase_step_base_bounded(config.block_freq, config.detune, config.pm_sensitivity, 0); }
        assert(phase_step_base(config.block_freq, config.detune, config.pm_sensitivity, 0) * config.multiple <= 0x1ffff * 30) by (nonlinear_arith)
            requires
                phase_step_base(config.block_freq, config.detune, config.pm_sensitivity, 0) <= 0x1ffff,
                config.multiple <= 30;
        self.phase_step = opn_phase_step(
            self.block_freq,
            self.detune,
            self.multiple,
            self.pm_sensitivity,
            0,
        );
        self.envelope.set_rates(config.rates);
        self.envelope.set_sustain(config.sustain);
        self.envelope.set_ssg(config.ssg_enabled, config.ssg_mode);
        self.am_enabled = config.am_enabled;
        self.total_level = config.total_level;
        let keyon = self.keyon_live;
        if self.envelope.set_key_state(keyon) {
            self.phase = 0;
        }
        self.envelope.state != EnvelopeState::Release || self.envelope.attenuation < EG_QUIET
    }

    pub fn set_volume_state(
        &mut self,
        env_attenuation: u16,
        env_shift: u8,
        ssg_inverted: bool,
        am_enabled: bool,
        total_level: u32,
    )
        ensures
            *final(self) == (Operator {
                envelope: Envelope {
                    attenuation: env_attenuation,
                    env_shift,
                    inverted: ssg_inverted,
                    ..old(self).envelope
                },
                am_enabled,
                total_level,
                ..*old(self)
            }),
    {
        self.envelope.configure_volume_state(env_attenuation, env_shift, ssg_inverted);
        self.am_enabled = am_enabled;
        self.total_level = total_level;
    }

    /// The 10-bit phase the sine lookup uses.
    pub fn phase(&self) -> (phase: u32)
        ensures
            phase == self.phase >> 10,
    {
        self.phase >> 10
    }

    pub fn clock_phase(&mut self)
        ensures
            *final(self) == (Operator {
                phase: vstd::wrapping::u32_specs::wrapping_add(old(self).phase, old(self).phase_step),
                ..*old(self)
            }),
    {
        self.phase = self.phase.wrapping_add(self.phase_step);
    }

    pub fn clock(&mut self, env_counter: u32)
        requires
            old(self).wf(),
        ensures
            final(self).wf(),
            *final(self) == operator_clocked(*old(self), env_counter, clock_step(*old(self), 0)),
    {
        self.clock_with_lfo(env_counter, 0);
    }

    pub fn clock_with_phase_step(&mut self, env_counter: u32, phase_step: u32)
        requires
            old(self).wf(),
        ensures
            final(self).wf(),
            *final(self) == operator_clocked(*old(self), env_counter, phase_step),
    {
        self.envelope.clock(env_counter);
        self.phase = self.phase.wrapping_add(phase_step);
    }

    pub fn clock_with_lfo(&mut self, env_counter: u32, raw_pm: i32)
        requires
            old(self).wf(),
            -7 <= raw_pm <= 7,
        ensures
            final(self).wf(),
            *final(self) == operator_clocked(*old(self), env_counter, clock_step(*old(self), raw_pm)),
    {
        let phase_step = if self.dynamic_phase {
            proof { lemma_phase_step_base_bounded(self.block_freq, self.detune, self.pm_sensitivity, raw_pm); }
            assert(phase_step_base(self.block_freq, self.detune, self.pm_sensitivity, raw_pm) * self.multiple <= 0x1ffff * 30) by (nonlinear_arith)
                requires
                    phase_step_base(self.block_freq, self.detune, self.pm_sensitivity, raw_pm) <= 0x1ffff,
                    self.multiple <= 30;
            opn_phase_step(self.block_freq, self.detune, self.multiple, self.pm_sensitivity, raw_pm)
        } else {
            self.phase_step
        };
        self.clock_with_phase_step(env_counter, phase_step);
    }

    /// The signed output at a (modulated) phase.
    pub fn compute_volume(&self, phase: u32, am_offset: u32) -> (volume: i32)
        requires
            self.envelope.env_shift < 32,
        ensures
            volume == compute_volume_spec(*self, phase, am_offset),
            -0x1fe8 <= volume <= 0x1fe8,
    {
        proof { reveal(compute_volume_spec); }
        if self.envelope.attenuation > EG_QUIET {
            return 0;
        }
        let sine = abs_sin_attenuation(phase & 0x3ff);
        let envelope = self.envelope.effective_attenuation(self.am_enabled, am_offset, self.total_level);
        let result = attenuation_to_volume(sine + envelope * 4) as i32;
        if phase & 0x200 != 0 {
            -result
        } else {
            result
        }
    }
}

} // verus!
