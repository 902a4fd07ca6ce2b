use vstd::prelude::*;

verus! {

broadcast use crate::bits::group_bit_bounds;

/// Number of steps of the sub-counter before the LFO advances, per rate.
pub const LFO_MAX_COUNT: [u8; 8] = [109, 78, 72, 68, 63, 45, 9, 6];

/// Pairs of right shifts (low and high nibble) that scale the frequency number
/// for phase modulation, indexed by sensitivity and the LFO step.
pub const PM_SHIFTS: [[u8; 8]; 8] = [
    [0x77, 0x77, 0x77, 0x77, 0x77, 0x77, 0x77, 0x77],
    [0x77, 0x77, 0x77, 0x77, 0x72, 0x72, 0x72, 0x72],
    [0x77, 0x77, 0x77, 0x72, 0x72, 0x72, 0x17, 0x17],
    [0x77, 0x77, 0x72, 0x72, 0x17, 0x17, 0x12, 0x12],
    [0x77, 0x77, 0x72, 0x17, 0x17, 0x17, 0x12, 0x07],
    [0x77, 0x77, 0x17, 0x12, 0x07, 0x07, 0x02, 0x01],
    [0x77, 0x77, 0x17, 0x12, 0x07, 0x07, 0x02, 0x01],
    [0x77, 0x77, 0x17, 0x12, 0x07, 0x07, 0x02, 0x01],
];

/// The OPNA low frequency oscillator: a counter whose bits give the
/// amplitude and phase modulation waves.
#[derive(Clone, Copy, Debug)]
pub struct Lfo {
    pub counter: u32,
    pub am: u8,
}

/// The counter after one enabled clock at `rate`.
pub open spec fn lfo_next_counter(counter: u32, rate: u8) -> u32 {
    let subcount = counter as u8;
    let next = vstd::wrapping::u32_specs::wrapping_add(counter, 1);
    if subcount >= LFO_MAX_COUNT@[rate as int] {
        vstd::wrapping::u32_specs::wrapping_add(next, (0x101 - subcount) as u32)
    } else {
        next
    }
}

/// The amplitude modulation value at a counter: a triangle over bits 8..14.
pub open spec fn lfo_am_at(counter: u32) -> u8 {
    let am = ((counter >> 8) & 0x3f) as u8;
    if counter & 0x4000 == 0 { (0x3f - am) as u8 } else { am }
}

/// The signed phase modulation step at a counter: a triangle over bits 10..14.
pub open spec fn lfo_pm_at(counter: u32) -> i32 {
    let pm = ((counter >> 10) & 7) as i32;
    let pm = if counter & 0x2000 != 0 { 7 - pm } else { pm as int };
    (if counter & 0x4000 != 0 { -pm } else { pm }) as i32
}

impl Lfo {
    pub fn new() -> (lfo: Self)
        ensures
            lfo.counter == 0,
            lfo.am == 0,
    {
        Lfo { counter: 0, am: 0 }
    }

    pub fn reset(&mut self)
        ensures
            final(self).counter == 0,
            final(self).am == old(self).am,
    {
        self.counter = 0;
    }

    pub fn set_counter(&mut self, counter: u32)
        ensures
            final(self).counter == counter,
            final(self).am == old(self).am,
    {
        self.counter = counter;
    }

    pub fn counter(&self) -> (counter: u32)
        ensures
            counter == self.counter,
    {
        self.counter
    }

    pub fn am(&self) -> (am: u8)
        ensures
            am == self.am,
    {
        self.am
    }

    /// Advances the oscillator and returns the phase modulation step; a
    /// disabled LFO is held at zero with the amplitude wave at its floor.
    pub fn clock(&mut self, enabled: bool, rate: u8) -> (pm: i32)
        requires
            rate < 8,
        ensures
            !enabled ==> final(self).counter == 0 && final(self).am == 0x3f && pm == 0,
            enabled ==> final(self).counter == lfo_next_counter(old(self).counter, rate),
            enabled ==> final(self).am == lfo_am_at(final(self).counter),
            enabled ==> pm == lfo_pm_at(final(self).counter),
            -7 <= pm <= 7,
    {
        if !enabled {
            self.counter = 0;
            self.am = 0x3f;
            return 0;
        }
        let subcount = self.counter as u8;
        self.counter = self.counter.wrapping_add(1);
        if subcount >= LFO_MAX_COUNT[rate as usize] {
            self.counter = self.counter.wrapping_add(0x101 - subcount as u32);
        }
        let counter = self.counter;
        let mut am = ((counter >> 8) & 0x3f) as u8;
        if counter & 0x4000 == 0 {
            am = 0x3f - am;
        }
        self.am = am;
        let mut pm = ((counter >> 10) & 7) as i32;
        if counter & 0x2000 != 0 {
            pm = 7 - pm;
        }
        if counter & 0x4000 != 0 {
            -pm
        } else {
            pm
        }
    }

    /// The amplitude modulation offset for a channel sensitivity (0 to 3).
    pub fn am_offset(&self, sensitivity: u8) -> (offset: u32)
        requires
            sensitivity < 4,
        ensures
            offset == lfo_am_offset_spec(self.am, sensitivity),
            offset <= 0x1fe,
    {
        let am_shift: u32 = match sensitivity {
            0 => 7,
            1 => 3,
            2 => 1,
            _ => 0,
        };
        let am = self.am as u32;
        (am * 2) >> am_shift
    }
}

/// The right shift that scales the amplitude wave for a sensitivity.
pub open spec fn am_shift_spec(sensitivity: u8) -> u32 {
    if sensitivity == 0 { 7 } else if sensitivity == 1 { 3 } else if sensitivity == 2 { 1 } else { 0 }
}

/// The amplitude modulation offset: the doubled wave, attenuated by sensitivity.
pub open spec fn lfo_am_offset_spec(am: u8, sensitivity: u8) -> u32 {
    ((am as u32) * 2) as u32 >> am_shift_spec(sensitivity)
}

/// The shift pair used for a sensitivity and LFO step.
pub open spec fn pm_shift_entry(sensitivity: u8, raw_pm: i32) -> u8 {
    let abs_pm = (if raw_pm < 0 { -raw_pm } else { raw_pm as int }) as u32;
    PM_SHIFTS@[sensitivity as int]@[(abs_pm & 7) as int]
}

/// The unscaled phase adjustment sum for a frequency number, before the
/// sensitivity boost; the operation it describes must fit in 32 bits.
pub open spec fn pm_adjust_sum(fnum_bits: u32, sensitivity: u8, raw_pm: i32) -> int {
    let shifts = pm_shift_entry(sensitivity, raw_pm);
    (fnum_bits >> (shifts & 0x0f)) as int + (fnum_bits >> (shifts >> 4)) as int
}

/// The phase adjustment that phase modulation applies to a frequency number.
pub open spec fn pm_phase_adjustment_spec(fnum_bits: u32, sensitivity: u8, raw_pm: i32) -> i32 {
    let sum = pm_adjust_sum(fnum_bits, sensitivity, raw_pm) as u32;
    let boosted = if sensitivity > 5 { sum << ((sensitivity - 5) as u32) } else { sum };
    let adjust = (boosted >> 2) as i32;
    if raw_pm < 0 { (-adjust) as i32 } else { adjust }
}

pub fn opn_lfo_pm_phase_adjustment(fnum_bits: u32, sensitivity: u8, raw_pm: i32) -> (adjust: i32)
    requires
        sensitivity < 8,
        raw_pm != i32::MIN,
        pm_adjust_sum(fnum_bits, sensitivity, raw_pm) <= u32::MAX,
    ensures
        adjust == pm_phase_adjustment_spec(fnum_bits, sensitivity, raw_pm),
        fnum_bits < 0x80 ==> -0x100 < adjust < 0x100,
{
    let abs_pm = (if raw_pm < 0 { -raw_pm } else { raw_pm }) as u32;
    let shifts = PM_SHIFTS[sensitivity as usize][(abs_pm & 7) as usize];
    proof {
        vstd::bits::lemma_u8_shr_is_div(shifts, 4);
        vstd::arithmetic::power2::lemma2_to64();
    }
    let low = fnum_bits >> ((shifts & 0x0f) as u32);
    let high = fnum_bits >> ((shifts >> 4) as u32);
    let mut adjust = low + high;
    if sensitivity > 5 {
        adjust = adjust << ((sensitivity - 5) as u32);
    }
    proof {
        vstd::bits::lemma_u32_shr_is_div(adjust, 2);
        if fnum_bits < 0x80 && sensitivity > 5 {
            assert(low < 0x80 && high < 0x80);
            if sensitivity == 6 {
                vstd::bits::lemma_u32_shl_is_mul((low + high) as u32, 1);
            } else {
                vstd::bits::lemma_u32_shl_is_mul((low + high) as u32, 2);
            }
        }
    }
    let scaled = (adjust >> 2) as i32;
    if raw_pm < 0 {
        -scaled
    } else {
        scaled
    }
}

/// The phase step before the frequency multiple is applied.
pub open spec fn phase_step_base(block_freq: u32, detune: i32, pm_sensitivity: u8, raw_pm: i32) -> u32 {
    let fnum0 = (block_freq & 0x7ff) << 1;
    let fnum = if pm_sensitivity != 0 {
        vstd::wrapping::u32_specs::wrapping_add(
            fnum0,
            pm_phase_adjustment_spec((block_freq >> 4) & 0x7f, pm_sensitivity, raw_pm) as u32,
        ) & 0xfff
    } else {
        fnum0
    };
    let block = (block_freq >> 11) & 7;
    vstd::wrapping::u32_specs::wrapping_add((fnum << block) >> 2, detune as u32) & 0x1ffff
}

/// The per-sample phase increment of an operator.
pub open spec fn phase_step_spec(
    block_freq: u32,
    detune: i32,
    multiple: u32,
    pm_sensitivity: u8,
    raw_pm: i32,
) -> u32 {
    ((phase_step_base(block_freq, detune, pm_sensitivity, raw_pm) * multiple) as u32) >> 1
}

pub fn opn_phase_step(
    block_freq: u32,
    detune: i32,
    multiple: u32,
    pm_sensitivity: u8,
    raw_pm: i32,
) -> (step: u32)
    requires
        pm_sensitivity < 8,
        raw_pm != i32::MIN,
        phase_step_base(block_freq, detune, pm_sensitivity, raw_pm) * multiple <= u32::MAX,
    ensures
        step == phase_step_spec(block_freq, detune, multiple, pm_sensitivity, raw_pm),
{
    let mut fnum = (block_freq & 0x7ff) << 1;
    if pm_sensitivity != 0 {
        let bits = (block_freq >> 4) & 0x7f;
        proof { lemma_pm_sum_small(bits, pm_sensitivity, raw_pm); }
        let adjust = opn_lfo_pm_phase_adjustment(bits, pm_sensitivity, raw_pm);
        fnum = fnum.wrapping_add(adjust as u32);
        fnum = fnum & 0xfff;
    }
    let block = (block_freq >> 11) & 7;
    let base = ((fnum << block) >> 2).wrapping_add(detune as u32) & 0x1ffff;
    (base * multiple) >> 1
}

proof fn lemma_pm_sum_small(bits: u32, sensitivity: u8, raw_pm: i32)
    requires
        bits < 0x80,
    ensures
        pm_adjust_sum(bits, sensitivity, raw_pm) < 0x100,
{
    broadcast use crate::bits::group_bit_bounds;
}

} // verus!
