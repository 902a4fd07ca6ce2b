use vstd::prelude::*;
use super::operator::{Operator, compute_volume_spec, operator_clocked, clock_step, operator_prepared};
use super::registers::OperatorConfig;
use super::envelope::{EG_QUIET, EnvelopeState};

verus! {

broadcast use crate::bits::group_bit_bounds;

/// The connection word of an algorithm: which output feeds operators 2, 3 and 4
/// (indices into the intermediate outputs) and which operators reach the
/// channel output besides operator 4.
pub open spec fn algorithm_spec(
    op2_input: u16,
    op3_input: u16,
    op4_input: u16,
    op1_output: u16,
    op2_output: u16,
    op3_output: u16,
) -> u16 {
    op2_input | (op3_input << 1) | (op4_input << 4) | (op1_output << 7) | (op2_output << 8) | (op3_output << 9)
}

pub fn algorithm(
    op2_input: u16,
    op3_input: u16,
    op4_input: u16,
    op1_output: u16,
    op2_output: u16,
    op3_output: u16,
) -> (word: u16)
    ensures
        word == algorithm_spec(op2_input, op3_input, op4_input, op1_output, op2_output, op3_output),
{
    op2_input | (op3_input << 1) | (op4_input << 4) | (op1_output << 7) | (op2_output << 8) | (op3_output << 9)
}

/// The eight OPN algorithms encoded as connection words.
pub const ALGORITHM_OPS: [u16; 8] = [0x035, 0x03a, 0x064, 0x071, 0x131, 0x313, 0x301, 0x380];

/// A four-operator FM channel with operator 1 self-feedback.
#[derive(Clone, Copy, Debug)]
pub struct FmChannel {
    pub operators: [Operator; 4],
    pub feedback: [i16; 2],
    pub feedback_in: i16,
    pub algorithm: u8,
    pub feedback_level: u8,
    pub output_left: bool,
    pub output_right: bool,
}

/// Whether an operator can currently be heard.
pub open spec fn operator_heard(op: Operator) -> bool {
    op.envelope.state != EnvelopeState::Release || op.envelope.attenuation < EG_QUIET
}

/// The value clamped into `[min, max]`.
pub open spec fn clamp_spec(value: int, min: int, max: int) -> int {
    if value < min { min } else if value > max { max } else { value }
}

pub fn clamp(value: i32, min: i32, max: i32) -> (clamped: i32)
    requires
        min <= max,
    ensures
        clamped == clamp_spec(value as int, min as int, max as int),
{
    if value < min {
        min
    } else if value > max {
        max
    } else {
        value
    }
}

/// A phase offset by a signed modulation, modulo 2^32.
pub open spec fn add_phase_spec(phase: u32, modulation: i32) -> u32 {
    vstd::wrapping::u32_specs::wrapping_add(phase, modulation as u32)
}

pub fn add_phase(phase: u32, modulation: i32) -> (result: u32)
    ensures
        result == add_phase_spec(phase, modulation),
{
    phase.wrapping_add(modulation as u32)
}

/// The output of operator `index` driven by modulation `opmod`, as a 16-bit value.
#[verifier::opaque]
pub open spec fn operator_out(ch: FmChannel, index: int, opmod: i32, am_offset: u32) -> i16 {
    let op = ch.operators@[index];
    compute_volume_spec(op, add_phase_spec(op.phase >> 10, opmod), am_offset) as i16
}

/// The feedback modulation of operator 1.
pub open spec fn feedback_mod(ch: FmChannel) -> i32 {
    if ch.feedback_level != 0 {
        ((ch.feedback@[0] + ch.feedback@[1]) as i32) >> ((10 - ch.feedback_level) as u32)
    } else {
        0
    }
}

/// The intermediate outputs: 1 to 3 are operators 1 to 3, 5 to 7 their sums.
#[verifier::opaque]
pub open spec fn channel_opouts(ch: FmChannel, am_offset: u32) -> Seq<i16> {
    let ops = ALGORITHM_OPS@[ch.algorithm as int];
    let o1 = operator_out(ch, 0, feedback_mod(ch), am_offset);
    let s1 = seq![0i16, o1, 0, 0, 0, 0, 0, 0];
    let o2 = operator_out(ch, 1, (s1[(ops & 1) as int] as i32) >> 1, am_offset);
    let s2 = s1.update(2, o2).update(5, vstd::wrapping::i16_specs::wrapping_add(o1, o2));
    let o3 = operator_out(ch, 2, (s2[((ops >> 1) & 7) as int] as i32) >> 1, am_offset);
    s2.update(3, o3).update(6, vstd::wrapping::i16_specs::wrapping_add(o1, o3)).update(
        7,
        vstd::wrapping::i16_specs::wrapping_add(o2, o3),
    )
}

/// The mono output of a channel: operator 4 plus the other carriers of the
/// algorithm, each addition clipped.
#[verifier::opaque]
pub open spec fn channel_mono(ch: FmChannel, am_offset: u32, rshift: u32, clipmax: i32) -> i32 {
    let ops = ALGORITHM_OPS@[ch.algorithm as int];
    let outs = channel_opouts(ch, am_offset);
    let op4 = ch.operators@[3];
    let r0 = compute_volume_spec(op4, add_phase_spec(op4.phase >> 10, (outs[((ops >> 4) & 7) as int] as i32) >> 1), am_offset) >> rshift;
    let clipmin = -clipmax - 1;
    let r1 = if ops & 0x80 != 0 { clamp_spec(r0 + ((outs[1] as i32) >> rshift), clipmin, clipmax as int) } else { r0 as int };
    let r2 = if ops & 0x100 != 0 { clamp_spec(r1 + ((outs[2] as i32) >> rshift), clipmin, clipmax as int) } else { r1 };
    let r3 = if ops & 0x200 != 0 { clamp_spec(r2 + ((outs[3] as i32) >> rshift), clipmin, clipmax as int) } else { r2 };
    r3 as i32
}

/// Any carrier bit of a connection word lies inside the carrier mask.
proof fn lemma_carrier_bits(word: u16)
    by (bit_vector)
    ensures
        word & 0x80 != 0 ==> word & 0x380 != 0,
        word & 0x100 != 0 ==> word & 0x380 != 0,
        word & 0x200 != 0 ==> word & 0x380 != 0,
{
}

impl FmChannel {
    pub open spec fn wf(&self) -> bool {
        &&& forall|i: int| 0 <= i < 4 ==> (#[trigger] self.operators@[i]).wf()
        &&& forall|i: int| 0 <= i < 4 ==> (#[trigger] self.operators@[i]).envelope.env_shift < 32
        &&& self.algorithm < 8
        &&& self.feedback_level < 8
    }

    pub fn new() -> (ch: Self)
        ensures
            ch.wf(),
            ch.feedback@ == seq![0i16, 0],
            ch.feedback_in == 0,
            ch.algorithm == 0,
            ch.feedback_level == 0,
            ch.output_left,
            ch.output_right,
            forall|i: int| 0 <= i < 4 ==> #[trigger] ch.operators@[i] == Operator::new_spec(),
    {
        let op = Operator::new();
        let ch = FmChannel {
            operators: [op, op, op, op],
            feedback: [0, 0],
            feedback_in: 0,
            algorithm: 0,
            feedback_level: 0,
            output_left: true,
            output_right: true,
        };
        assert(ch.feedback@ =~= seq![0i16, 0]);
        ch
    }

    pub fn operator_mut(&mut self, index: usize) -> (op: &mut Operator)
        requires
            index < 4,
        ensures
            *op == old(self).operators@[index as int],
            final(self).operators@ == old(self).operators@.update(index as int, *final(op)),
            final(self).feedback == old(self).feedback,
            final(self).feedback_in == old(self).feedback_in,
            final(self).algorithm == old(self).algorithm,
            final(self).feedback_level == old(self).feedback_level,
            final(self).output_left == old(self).output_left,
            final(self).output_right == old(self).output_right,
    {
        &mut self.operators[index]
    }

    pub fn reset(&mut self)
        requires
            old(self).wf(),
        ensures
            final(self).wf(),
            final(self).feedback@ == seq![0i16, 0],
            final(self).feedback_in == 0,
            final(self).algorithm == old(self).algorithm,
            final(self).feedback_level == old(self).feedback_level,
            forall|i: int| 0 <= i < 4 ==> (#[trigger] final(self).operators@[i]).phase == 0
                && final(self).operators@[i].envelope.state == EnvelopeState::Release
                && !final(self).operators@[i].keyon_live,
    {
        self.feedback = [0, 0];
        self.feedback_in = 0;
        let mut i: usize = 0;
        while i < 4
            invariant
                0 <= i <= 4,
                self.wf(),
                self.feedback@ == seq![0i16, 0],
                self.feedback_in == 0,
                self.algorithm == old(self).algorithm,
                self.feedback_level == old(self).feedback_level,
                forall|j: int| 0 <= j < i ==> (#[trigger] self.operators@[j]).phase == 0
                    && self.operators@[j].envelope.state == EnvelopeState::Release
                    && !self.operators@[j].keyon_live,
            decreases 4 - i,
        {
            let mut op = self.operators[i];
            op.reset();
            self.operators[i] = op;
            i = i + 1;
        }
        assert(self.feedback@ =~= seq![0i16, 0]);
    }

    /// Latches the key state of each operator from the bits of `states`.
    pub fn keyonoff(&mut self, states: u8)
        ensures
            forall|i: int| 0 <= i < 4 ==> #[trigger] final(self).operators@[i] == (Operator {
                keyon_live: states & (1u8 << i as u8) != 0,
                ..old(self).operators@[i]
            }),
            final(self).feedback == old(self).feedback,
            final(self).feedback_in == old(self).feedback_in,
            final(self).algorithm == old(self).algorithm,
            final(self).feedback_level == old(self).feedback_level,
            final(self).output_left == old(self).output_left,
            final(self).output_right == old(self).output_right,
    {
        let mut i: usize = 0;
        while i < 4
            invariant
                0 <= i <= 4,
                forall|j: int| 0 <= j < i ==> #[trigger] self.operators@[j] == (Operator {
                    keyon_live: states & (1u8 << j as u8) != 0,
                    ..old(self).operators@[j]
                }),
                forall|j: int| i <= j < 4 ==> #[trigger] self.operators@[j] == old(self).operators@[j],
                self.feedback == old(self).feedback,
                self.feedback_in == old(self).feedback_in,
                self.algorithm == old(self).algorithm,
                self.feedback_level == old(self).feedback_level,
                self.output_left == old(self).output_left,
                self.output_right == old(self).output_right,
            decreases 4 - i,
        {
            let mut op = self.operators[i];
            op.keyonoff(states & (1u8 << i as u8) != 0);
            self.operators[i] = op;
            i = i + 1;
        }
    }

    /// Loads the configuration of all four operators; returns whether any of
    /// them can be heard.
    pub fn prepare(&mut self, configs: [OperatorConfig; 4], lfo_enabled: bool) -> (active: bool)
        requires
            old(self).wf(),
            forall|i: int| 0 <= i < 4 ==> (#[trigger] configs@[i]).wf(),
        ensures
            final(self).wf(),
            forall|i: int| 0 <= i < 4 ==> #[trigger] final(self).operators@[i]
                == operator_prepared(old(self).operators@[i], configs@[i], lfo_enabled),
            active == exists|i: int| 0 <= i < 4 && operator_heard(#[trigger] final(self).operators@[i]),
            final(self).feedback == old(self).feedback,
            final(self).feedback_in == old(self).feedback_in,
            final(self).algorithm == old(self).algorithm,
            final(self).feedback_level == old(self).feedback_level,
            final(self).output_left == old(self).output_left,
            final(self).output_right == old(self).output_right,
    {
        let mut active = false;
        let mut i: usize = 0;
        while i < 4
            invariant
                0 <= i <= 4,
                self.wf(),
                forall|k: int| 0 <= k < 4 ==> (#[trigger] configs@[k]).wf(),
                forall|j: int| 0 <= j < i ==> #[trigger] self.operators@[j]
                    == operator_prepared(old(self).operators@[j], configs@[j], lfo_enabled),
                forall|j: int| i <= j < 4 ==> #[trigger] self.operators@[j] == old(self).operators@[j],
                active == exists|j: int| 0 <= j < i && operator_heard(#[trigger] self.operators@[j]),
                self.feedback == old(self).feedback,
                self.feedback_in == old(self).feedback_in,
                self.algorithm == old(self).algorithm,
                self.feedback_level == old(self).feedback_level,
                self.output_left == old(self).output_left,
                self.output_right == old(self).output_right,
            decreases 4 - i,
        {
            let ghost before = self.operators@;
            let mut op = self.operators[i];
            let heard = op.prepare(configs[i], lfo_enabled);
            self.operators[i] = op;
            proof {
                if heard {
                    assert(operator_heard(self.operators@[i as int]));
                }
                if active {
                    let w = choose|j: int| 0 <= j < i && operator_heard(#[trigger] before[j]);
                    assert(self.operators@[w] == before[w]);
                }
                if !active && !heard {
                    assert forall|j: int| 0 <= j < i + 1 implies !operator_heard(#[trigger] self.operators@[j]) by {
                        if j < i {
                            assert(self.operators@[j] == before[j]);
                        }
                    }
                }
            }
            active = active || heard;
            i = i + 1;
        }
        active
    }

    pub fn set_algorithm(&mut self, algorithm: u8)
        requires
            algorithm < 8,
        ensures
            *final(self) == (FmChannel { algorithm, ..*old(self) }),
    {
        self.algorithm = algorithm;
    }

    pub fn set_feedback_level(&mut self, feedback_level: u8)
        requires
            feedback_level < 8,
        ensures
            *final(self) == (FmChannel { feedback_level, ..*old(self) }),
    {
        self.feedback_level = feedback_level;
    }

    pub fn set_pan(&mut self, left: bool, right: bool)
        ensures
            *final(self) == (FmChannel { output_left: left, output_right: right, ..*old(self) }),
    {
        self.output_left = left;
        self.output_right = right;
    }

    pub fn set_feedback_state(&mut self, feedback0: i16, feedback1: i16, feedback_in: i16)
        ensures
            final(self).feedback@ == seq![feedback0, feedback1],
            final(self).feedback_in == feedback_in,
            final(self).operators == old(self).operators,
            final(self).algorithm == old(self).algorithm,
            final(self).feedback_level == old(self).feedback_level,
            final(self).output_left == old(self).output_left,
            final(self).output_right == old(self).output_right,
    {
        self.feedback = [feedback0, feedback1];
        self.feedback_in = feedback_in;
        assert(self.feedback@ =~= seq![feedback0, feedback1]);
    }

    pub fn clock(&mut self, env_counter: u32)
        requires
            old(self).wf(),
        ensures
            final(self).wf(),
            final(self).feedback@ == seq![old(self).feedback@[1], old(self).feedback_in],
            forall|i: int| 0 <= i < 4 ==> #[trigger] final(self).operators@[i] == operator_clocked(
                old(self).operators@[i],
                env_counter,
                clock_step(old(self).operators@[i], 0),
            ),
    {
        self.clock_with_lfo(env_counter, 0);
    }

    /// Shifts the feedback history and clocks every operator under the LFO.
    pub fn clock_with_lfo(&mut self, env_counter: u32, raw_pm: i32)
        requires
            old(self).wf(),
            -7 <= raw_pm <= 7,
        ensures
            final(self).wf(),
            final(self).feedback@ == seq![old(self).feedback@[1], old(self).feedback_in],
            final(self).feedback_in == old(self).feedback_in,
            final(self).algorithm == old(self).algorithm,
            final(self).feedback_level == old(self).feedback_level,
            final(self).output_left == old(self).output_left,
            final(self).output_right == old(self).output_right,
            forall|i: int| 0 <= i < 4 ==> #[trigger] final(self).operators@[i] == operator_clocked(
                old(self).operators@[i],
                env_counter,
                clock_step(old(self).operators@[i], raw_pm),
            ),
    {
        let last = self.feedback[1];
        self.feedback = [last, self.feedback_in];
        let mut i: usize = 0;
        while i < 4
            invariant
                0 <= i <= 4,
                self.wf(),
                -7 <= raw_pm <= 7,
                self.feedback@ == seq![old(self).feedback@[1], old(self).feedback_in],
                self.feedback_in == old(self).feedback_in,
                self.algorithm == old(self).algorithm,
                self.feedback_level == old(self).feedback_level,
                self.output_left == old(self).output_left,
                self.output_right == old(self).output_right,
                forall|j: int| 0 <= j < i ==> #[trigger] self.operators@[j] == operator_clocked(
                    old(self).operators@[j],
                    env_counter,
                    clock_step(old(self).operators@[j], raw_pm),
                ),
                forall|j: int| i <= j < 4 ==> #[trigger] self.operators@[j] == old(self).operators@[j],
            decreases 4 - i,
        {
            let mut op = self.operators[i];
            op.clock_with_lfo(env_counter, raw_pm);
            self.operators[i] = op;
            i = i + 1;
        }
        assert(self.feedback@ =~= seq![old(self).feedback@[1], old(self).feedback_in]);
    }

    /// Clocks every operator with an explicit phase increment each.
    pub fn clock_with_phase_steps(&mut self, env_counter: u32, phase_steps: [u32; 4])
        requires
            old(self).wf(),
        ensures
            final(self).wf(),
            final(self).feedback@ == seq![old(self).feedback@[1], old(self).feedback_in],
            forall|i: int| 0 <= i < 4 ==> #[trigger] final(self).operators@[i] == operator_clocked(
                old(self).operators@[i],
                env_counter,
                phase_steps@[i],
            ),
    {
        let last = self.feedback[1];
        self.feedback = [last, self.feedback_in];
        let mut i: usize = 0;
        while i < 4
            invariant
                0 <= i <= 4,
                self.wf(),
                self.feedback@ == seq![old(self).feedback@[1], old(self).feedback_in],
                forall|j: int| 0 <= j < i ==> #[trigger] self.operators@[j] == operator_clocked(
                    old(self).operators@[j],
                    env_counter,
                    phase_steps@[j],
                ),
                forall|j: int| i <= j < 4 ==> #[trigger] self.operators@[j] == old(self).operators@[j],
            decreases 4 - i,
        {
            let mut op = self.operators[i];
            op.clock_with_phase_step(env_counter, phase_steps[i]);
            self.operators[i] = op;
            i = i + 1;
        }
        assert(self.feedback@ =~= seq![old(self).feedback@[1], old(self).feedback_in]);
    }

    /// The output of operator `index` for a modulation input.
    fn operator_output(&self, index: usize, opmod: i32, am_offset: u32) -> (out: i16)
        requires
            self.wf(),
            index < 4,
        ensures
            out == operator_out(*self, index as int, opmod, am_offset),
    {
        let op = self.operators[index];
        proof { reveal(operator_out); }
        op.compute_volume(add_phase(op.phase(), opmod), am_offset) as i16
    }

    /// The intermediate operator outputs of the current algorithm.
    fn opouts(&self, am_offset: u32) -> (opout: [i16; 8])
        requires
            self.wf(),
        ensures
            opout@ == channel_opouts(*self, am_offset),
    {
        proof { reveal(channel_opouts); }
        let mut opmod: i32 = 0;
        if self.feedback_level != 0 {
            opmod = (self.feedback[0] as i32 + self.feedback[1] as i32) >> ((10 - self.feedback_level) as u32);
        }
        let mut opout: [i16; 8] = [0, 0, 0, 0, 0, 0, 0, 0];
        opout[1] = self.operator_output(0, opmod, am_offset);
        let algorithm_ops = ALGORITHM_OPS[self.algorithm as usize];
        opout[2] = self.operator_output(1, (opout[(algorithm_ops & 1) as usize] as i32) >> 1, am_offset);
        opout[5] = opout[1].wrapping_add(opout[2]);
        opout[3] = self.operator_output(2, (opout[((algorithm_ops >> 1) & 7) as usize] as i32) >> 1, am_offset);
        opout[6] = opout[1].wrapping_add(opout[3]);
        opout[7] = opout[2].wrapping_add(opout[3]);
        assert(opout@ =~= channel_opouts(*self, am_offset));
        opout
    }

    /// Operator 4 plus the other carriers, each addition clipped.
    fn mono(&self, opout: [i16; 8], am_offset: u32, rshift: u32, clipmax: i32) -> (result: i32)
        requires
            self.wf(),
            rshift < 32,
            opout@ == channel_opouts(*self, am_offset),
            ALGORITHM_OPS@[self.algorithm as int] & 0x380 != 0 ==> clipmax >= 0,
        ensures
            result == channel_mono(*self, am_offset, rshift, clipmax),
            -0x20000 <= result <= 0x20000,
    {
        proof { reveal(channel_mono); }
        let algorithm_ops = ALGORITHM_OPS[self.algorithm as usize];
        proof { lemma_carrier_bits(algorithm_ops); }
        let op3 = self.operators[3];
        let opmod = (opout[((algorithm_ops >> 4) & 7) as usize] as i32) >> 1;
        let mut result = op3.compute_volume(add_phase(op3.phase(), opmod), am_offset) >> rshift;
        assert(-0x1fe8 <= result <= 0x1fe8);
        if algorithm_ops & 0x80 != 0 {
            let clipmin = -clipmax - 1;
            result = clamp(result + ((opout[1] as i32) >> rshift), clipmin, clipmax);
        }
        assert(-0x1fe8 - 0x8000 <= result <= 0x1fe8 + 0x8000);
        if algorithm_ops & 0x100 != 0 {
            let clipmin = -clipmax - 1;
            result = clamp(result + ((opout[2] as i32) >> rshift), clipmin, clipmax);
        }
        assert(-0x1fe8 - 0x10000 <= result <= 0x1fe8 + 0x10000);
        if algorithm_ops & 0x200 != 0 {
            let clipmin = -clipmax - 1;
            result = clamp(result + ((opout[3] as i32) >> rshift), clipmin, clipmax);
        }
        result
    }

    /// Computes the channel's stereo output and records operator 1's output
    /// for the next feedback step.
    pub fn render(&mut self, am_offset: u32, rshift: u32, clipmax: i32) -> (output: [i32; 2])
        requires
            old(self).wf(),
            rshift < 32,
            ALGORITHM_OPS@[old(self).algorithm as int] & 0x380 != 0 ==> clipmax >= 0,
        ensures
            final(self).wf(),
            *final(self) == (FmChannel { feedback_in: channel_opouts(*old(self), am_offset)[1], ..*old(self) }),
            output@ == seq![
                if old(self).output_left { channel_mono(*old(self), am_offset, rshift, clipmax) } else { 0 },
                if old(self).output_right { channel_mono(*old(self), am_offset, rshift, clipmax) } else { 0 },
            ],
            -0x20000 <= output@[0] <= 0x20000,
            -0x20000 <= output@[1] <= 0x20000,
    {
        let opout = self.opouts(am_offset);
        let result = self.mono(opout, am_offset, rshift, clipmax);
        self.feedback_in = opout[1];
        let mut output: [i32; 2] = [0, 0];
        if self.output_left {
            output[0] = result;
        }
        if self.output_right {
            output[1] = result;
        }
        assert(output@ =~= seq![
            if old(self).output_left { channel_mono(*old(self), am_offset, rshift, clipmax) } else { 0 },
            if old(self).output_right { channel_mono(*old(self), am_offset, rshift, clipmax) } else { 0 },
        ]);
        output
    }
}

} // verus!
