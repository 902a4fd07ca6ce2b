use vstd::prelude::*;
use crate::pmd::banks::trunc_div;
use crate::pmd::effects::truncated_quotient;

verus! {

/// One in the fixed-point time base of the schedulers (2^48).
pub const FIXED_TIME_ONE: u64 = 0x1_0000_0000_0000;

/// Gives one frame of three channel levels per call.
pub trait FrameSource {
    fn next_frame(&mut self) -> [i32; 3];
}

/// How many SSG output samples are made from how many source clocks.
#[derive(Clone, Copy, Debug, PartialEq, Eq, Structural)]
pub enum SsgRatio {
    Nop,
    OneToOne,
    TwoToOne,
    FourToOne,
    OneToThree,
    OneToSix,
    TwoToThree,
    FourToThree,
    TwoToNine,
}

/// The ratio for `output` samples per `source` clocks, if supported.
pub open spec fn ssg_ratio_of(output: u8, source: u8) -> Option<SsgRatio> {
    if output == 4 && source == 1 {
        Some(SsgRatio::FourToOne)
    } else if output == 2 && source == 1 {
        Some(SsgRatio::TwoToOne)
    } else if output == 4 && source == 3 {
        Some(SsgRatio::FourToThree)
    } else if output == 1 && source == 1 {
        Some(SsgRatio::OneToOne)
    } else if output == 2 && source == 3 {
        Some(SsgRatio::TwoToThree)
    } else if output == 1 && source == 3 {
        Some(SsgRatio::OneToThree)
    } else if output == 2 && source == 9 {
        Some(SsgRatio::TwoToNine)
    } else if output == 1 && source == 6 {
        Some(SsgRatio::OneToSix)
    } else if output == 0 && source == 0 {
        Some(SsgRatio::Nop)
    } else {
        None
    }
}

/// Resamples the SSG's three channels (mixed to one) to the chip's output
/// rate.
#[derive(Clone, Debug, PartialEq, Eq)]
pub struct SsgResampler {
    pub sample_index: u32,
    pub ratio: SsgRatio,
    pub last: [i32; 3],
}

/// A sample index advanced by some output samples (wrapping).
pub open spec fn index_after(index: u32, count: int) -> u32 {
    ((index as int + count) % 0x1_0000_0000) as u32
}

impl SsgResampler {
    pub fn new() -> (resampler: Self)
        ensures
            resampler.sample_index == 0,
            resampler.ratio == SsgRatio::Nop,
            resampler.last@ == seq![0i32, 0, 0],
    {
        SsgResampler { sample_index: 0, ratio: SsgRatio::Nop, last: [0; 3] }
    }

    /// Selects the ratio; an unsupported one is refused and changes nothing.
    pub fn configure(&mut self, output_samples: u8, source_samples: u8) -> (accepted: bool)
        ensures
            accepted == ssg_ratio_of(output_samples, source_samples) is Some,
            *final(self) == (match ssg_ratio_of(output_samples, source_samples) {
                Some(ratio) => SsgResampler { ratio, ..*old(self) },
                None => *old(self),
            }),
    {
        let ratio = if output_samples == 4 && source_samples == 1 {
            SsgRatio::FourToOne
        } else if output_samples == 2 && source_samples == 1 {
            SsgRatio::TwoToOne
        } else if output_samples == 4 && source_samples == 3 {
            SsgRatio::FourToThree
        } else if output_samples == 1 && source_samples == 1 {
            SsgRatio::OneToOne
        } else if output_samples == 2 && source_samples == 3 {
            SsgRatio::TwoToThree
        } else if output_samples == 1 && source_samples == 3 {
            SsgRatio::OneToThree
        } else if output_samples == 2 && source_samples == 9 {
            SsgRatio::TwoToNine
        } else if output_samples == 1 && source_samples == 6 {
            SsgRatio::OneToSix
        } else if output_samples == 0 && source_samples == 0 {
            SsgRatio::Nop
        } else {
            return false;
        };
        self.ratio = ratio;
        true
    }

    pub fn sample_index(&self) -> (index: u32)
        ensures
            index == self.sample_index,
    {
        self.sample_index
    }

    /// Fills `output` with resampled SSG levels, clocking the source as the
    /// ratio asks; every output sample advances the sample index by one. The
    /// idle ratio leaves the output as it is.
    pub fn render<S: FrameSource>(&mut self, output: &mut [i32], source: &mut S)
        ensures
            final(output)@.len() == old(output)@.len(),
            final(self).ratio == old(self).ratio,
            final(self).sample_index == index_after(old(self).sample_index, old(output)@.len() as int),
            old(self).ratio is Nop ==> final(output)@ == old(output)@ && final(self).last == old(self).last,
    {
        match self.ratio {
            SsgRatio::Nop => {
                let advance = (output.len() as u64 % 0x1_0000_0000) as u32;
                proof {
                    vstd::arithmetic::div_mod::lemma_add_mod_noop(self.sample_index as int, output@.len() as int, 0x1_0000_0000);
                    assert((self.sample_index as int) % 0x1_0000_0000 == self.sample_index as int);
                }
                self.sample_index = ((self.sample_index as u64 + advance as u64) % 0x1_0000_0000) as u32;
            },
            SsgRatio::OneToOne => self.render_repeat(output, 1, source),
            SsgRatio::TwoToOne => self.render_repeat(output, 2, source),
            SsgRatio::FourToOne => self.render_repeat(output, 4, source),
            SsgRatio::OneToThree => self.render_average(output, 3, source),
            SsgRatio::OneToSix => self.render_average(output, 6, source),
            SsgRatio::TwoToThree => self.render_two_to_three(output, source),
            SsgRatio::FourToThree => self.render_four_to_three(output, source),
            SsgRatio::TwoToNine => self.render_two_to_nine(output, source),
        }
    }

    fn add_last(sum: &mut [i32; 3], last: &[i32; 3], scale: i32)
        ensures
            forall|i: int| 0 <= i < 3 ==> #[trigger] final(sum)@[i] == vstd::wrapping::i32_specs::wrapping_add(
                old(sum)@[i], vstd::wrapping::i32_specs::wrapping_mul(last@[i], scale)),
    {
        let mut index: usize = 0;
        while index < 3
            invariant
                index <= 3,
                forall|i: int| 0 <= i < index ==> #[trigger] sum@[i] == vstd::wrapping::i32_specs::wrapping_add(
                    old(sum)@[i], vstd::wrapping::i32_specs::wrapping_mul(last@[i], scale)),
                forall|i: int| index <= i < 3 ==> #[trigger] sum@[i] == old(sum)@[i],
            decreases 3 - index,
        {
            sum[index] = sum[index].wrapping_add(last[index].wrapping_mul(scale));
            index = index + 1;
        }
    }

    fn clock_and_add<S: FrameSource>(&mut self, sum: &mut [i32; 3], source: &mut S, scale: i32)
        ensures
            final(self).sample_index == old(self).sample_index,
            final(self).ratio == old(self).ratio,
    {
        self.last = source.next_frame();
        Self::add_last(sum, &self.last, scale);
    }

    fn write_output(&mut self, output: &mut [i32], index: usize, sum: [i32; 3], divisor: i32)
        requires
            index < old(output)@.len(),
            1 <= divisor <= 9,
        ensures
            final(output)@.len() == old(output)@.len(),
            *final(self) == (SsgResampler { sample_index: index_after(old(self).sample_index, 1), ..*old(self) }),
    {
        output[index] = sum[0].wrapping_add(sum[1]).wrapping_add(sum[2]).wrapping_mul(2) / (3 * divisor);
        self.sample_index = self.sample_index.wrapping_add(1);
    }

    fn render_repeat<S: FrameSource>(&mut self, output: &mut [i32], multiplier: u32, source: &mut S)
        requires
            multiplier > 0,
        ensures
            final(output)@.len() == old(output)@.len(),
            final(self).ratio == old(self).ratio,
            final(self).sample_index == index_after(old(self).sample_index, old(output)@.len() as int),
    {
        let mut index: usize = 0;
        while index < output.len()
            invariant
                index <= output@.len(),
                output@.len() == old(output)@.len(),
                multiplier > 0,
                self.ratio == old(self).ratio,
                self.sample_index == index_after(old(self).sample_index, index as int),
            decreases output@.len() - index,
        {
            if self.sample_index % multiplier == 0 {
                self.last = source.next_frame();
            }
            output[index] = self.last[0].wrapping_add(self.last[1]).wrapping_add(self.last[2]).wrapping_mul(2) / 3;
            self.sample_index = self.sample_index.wrapping_add(1);
            index = index + 1;
        }
    }

    fn render_average<S: FrameSource>(&mut self, output: &mut [i32], divisor: i32, source: &mut S)
        requires
            1 <= divisor <= 9,
        ensures
            final(output)@.len() == old(output)@.len(),
            final(self).ratio == old(self).ratio,
            final(self).sample_index == index_after(old(self).sample_index, old(output)@.len() as int),
    {
        let mut index: usize = 0;
        while index < output.len()
            invariant
                index <= output@.len(),
                output@.len() == old(output)@.len(),
                1 <= divisor <= 9,
                self.ratio == old(self).ratio,
                self.sample_index == index_after(old(self).sample_index, index as int),
            decreases output@.len() - index,
        {
            let mut sum: [i32; 3] = [0; 3];
            let mut count: i32 = 0;
            while count < divisor
                invariant
                    0 <= count <= divisor,
                    self.ratio == old(self).ratio,
                    self.sample_index == index_after(old(self).sample_index, index as int),
                decreases divisor - count,
            {
                self.clock_and_add(&mut sum, source, 1);
                count = count + 1;
            }
            self.write_output(output, index, sum, divisor);
            index = index + 1;
        }
    }

    fn render_two_to_three<S: FrameSource>(&mut self, output: &mut [i32], source: &mut S)
        ensures
            final(output)@.len() == old(output)@.len(),
            final(self).ratio == old(self).ratio,
            final(self).sample_index == index_after(old(self).sample_index, old(output)@.len() as int),
    {
        let mut index: usize = 0;
        while index < output.len()
            invariant
                index <= output@.len(),
                output@.len() == old(output)@.len(),
                self.ratio == old(self).ratio,
                self.sample_index == index_after(old(self).sample_index, index as int),
            decreases output@.len() - index,
        {
            let mut sum: [i32; 3] = [0; 3];
            if self.sample_index & 1 == 0 {
                self.clock_and_add(&mut sum, source, 2);
                self.clock_and_add(&mut sum, source, 1);
            } else {
                Self::add_last(&mut sum, &self.last, 1);
                self.clock_and_add(&mut sum, source, 2);
            }
            self.write_output(output, index, sum, 3);
            index = index + 1;
        }
    }

    fn render_four_to_three<S: FrameSource>(&mut self, output: &mut [i32], source: &mut S)
        ensures
            final(output)@.len() == old(output)@.len(),
            final(self).ratio == old(self).ratio,
            final(self).sample_index == index_after(old(self).sample_index, old(output)@.len() as int),
    {
        let mut index: usize = 0;
        while index < output.len()
            invariant
                index <= output@.len(),
                output@.len() == old(output)@.len(),
                self.ratio == old(self).ratio,
                self.sample_index == index_after(old(self).sample_index, index as int),
            decreases output@.len() - index,
        {
            let mut sum: [i32; 3] = [0; 3];
            let step = self.sample_index % 4;
            Self::add_last(&mut sum, &self.last, step as i32);
            if step != 3 {
                self.clock_and_add(&mut sum, source, 3 - step as i32);
            }
            self.write_output(output, index, sum, 3);
            index = index + 1;
        }
    }

    fn render_two_to_nine<S: FrameSource>(&mut self, output: &mut [i32], source: &mut S)
        ensures
            final(output)@.len() == old(output)@.len(),
            final(self).ratio == old(self).ratio,
            final(self).sample_index == index_after(old(self).sample_index, old(output)@.len() as int),
    {
        let mut index: usize = 0;
        while index < output.len()
            invariant
                index <= output@.len(),
                output@.len() == old(output)@.len(),
                self.ratio == old(self).ratio,
                self.sample_index == index_after(old(self).sample_index, index as int),
            decreases output@.len() - index,
        {
            let mut sum: [i32; 3] = [0; 3];
            if self.sample_index & 1 != 0 {
                Self::add_last(&mut sum, &self.last, 1);
            }
            let mut count: u32 = 0;
            while count < 4
                invariant
                    count <= 4,
                    self.ratio == old(self).ratio,
                    self.sample_index == index_after(old(self).sample_index, index as int),
                decreases 4 - count,
            {
                self.clock_and_add(&mut sum, source, 2);
                count = count + 1;
            }
            if self.sample_index & 1 == 0 {
                self.clock_and_add(&mut sum, source, 1);
            }
            self.write_output(output, index, sum, 9);
            index = index + 1;
        }
    }
}

/// A time advanced by `n` steps, wrapping in 64 bits.
pub open spec fn wrap_steps(position: u64, step: u64, n: nat) -> u64
    decreases n,
{
    if n == 0 { position } else { vstd::wrapping::u64_specs::wrapping_add(wrap_steps(position, step, (n - 1) as nat), step) }
}

/// An output frame with a held source frame added: its first level to the
/// left, its second to the right, its third to both (wrapping).
pub open spec fn mixed_frame(f: [i32; 2], held: [i32; 3]) -> [i32; 2] {
    [
        vstd::wrapping::i32_specs::wrapping_add(f[0], vstd::wrapping::i32_specs::wrapping_add(held[0], held[2])),
        vstd::wrapping::i32_specs::wrapping_add(f[1], vstd::wrapping::i32_specs::wrapping_add(held[1], held[2])),
    ]
}

/// Runs a frame source at its own rate and holds each frame for the output
/// samples that fall before the next, on a 2^48 fixed-point time base.
#[derive(Clone, Copy, Debug, PartialEq, Eq)]
pub struct OpnaScheduler {
    pub source_step: u64,
    pub output_step: u64,
    pub source_position: u64,
    pub output_position: u64,
    pub last: [i32; 3],
    pub generated_samples: u64,
}

impl OpnaScheduler {
    /// A scheduler for the two rates; none when either is zero.
    pub fn new(source_rate: u32, output_rate: u32) -> (scheduler: Option<Self>)
        ensures
            (source_rate == 0 || output_rate == 0) <==> scheduler is None,
            scheduler matches Some(s) ==> {
                &&& s.source_step == FIXED_TIME_ONE / source_rate as u64
                &&& s.output_step == FIXED_TIME_ONE / output_rate as u64
                &&& s.source_position == 0 && s.output_position == 0
                &&& s.last@ == seq![0i32, 0, 0]
                &&& s.generated_samples == 0
            },
    {
        if source_rate == 0 || output_rate == 0 {
            return None;
        }
        Some(OpnaScheduler {
            source_step: FIXED_TIME_ONE / source_rate as u64,
            output_step: FIXED_TIME_ONE / output_rate as u64,
            source_position: 0,
            output_position: 0,
            last: [0; 3],
            generated_samples: 0,
        })
    }

    /// Adds to each output frame the latest source frame (left with the
    /// third level, right with the third level), clocking the source
    /// whenever its time has not passed the output's.
    pub fn render<S: FrameSource>(&mut self, output: &mut [[i32; 2]], source: &mut S)
        requires
            old(self).source_step > 0,
        ensures
            final(output)@.len() == old(output)@.len(),
            final(self).source_step == old(self).source_step,
            final(self).output_step == old(self).output_step,
            final(self).output_position == wrap_steps(old(self).output_position, old(self).output_step, old(output)@.len()),
            old(output)@.len() == 0 ==> *final(self) == *old(self),
            old(output)@.len() > 0 ==> final(output)@.last() == mixed_frame(old(output)@.last(), final(self).last),
    {
        let mut index: usize = 0;
        let ghost mut held: [i32; 3] = self.last;
        while index < output.len()
            invariant
                index <= output@.len(),
                output@.len() == old(output)@.len(),
                self.source_step == old(self).source_step,
                self.output_step == old(self).output_step,
                old(self).source_step > 0,
                self.output_position == wrap_steps(old(self).output_position, old(self).output_step, index as nat),
                index == 0 ==> *self == *old(self),
                index > 0 ==> self.last == held && output@[index - 1] == mixed_frame(old(output)@[index - 1], held),
                forall|j: int| index <= j < output@.len() ==> #[trigger] output@[j] == old(output)@[j],
            decreases output@.len() - index,
        {
            let ghost at_output = self.output_position;
            while self.source_position <= self.output_position
                invariant
                    self.source_step == old(self).source_step,
                    self.output_step == old(self).output_step,
                    self.output_position == at_output,
                    old(self).source_step > 0,
                decreases (if self.source_position <= self.output_position {
                    self.output_position - self.source_position + 1
                } else {
                    0
                }),
            {
                self.last = source.next_frame();
                self.generated_samples = self.generated_samples.wrapping_add(1);
                if self.source_position > u64::MAX - self.source_step {
                    self.source_position = self.source_position.wrapping_add(self.source_step);
                    break;
                }
                self.source_position = self.source_position + self.source_step;
            }
            let frame = output[index];
            proof {
                held = self.last;
            }
            output[index] = [
                frame[0].wrapping_add(self.last[0].wrapping_add(self.last[2])),
                frame[1].wrapping_add(self.last[1].wrapping_add(self.last[2])),
            ];
            proof {
                assert(output@[index as int]@ =~= mixed_frame(old(output)@[index as int], held)@);
            }
            self.output_position = self.output_position.wrapping_add(self.output_step);
            index = index + 1;
        }
    }

    pub fn generated_samples(&self) -> (count: u64)
        ensures
            count == self.generated_samples,
    {
        self.generated_samples
    }
}

/// A level clipped to 16 bits.
pub open spec fn clip16_spec(value: i32) -> i32 {
    if value < -32768 { -32768i32 } else if value > 32767 { 32767i32 } else { value }
}

/// The FM levels scaled by a volume (65536 doubling them) and clipped.
pub fn scale_fm_and_clip(fm: &mut [i32; 2], volume: i32)
    ensures
        forall|i: int| 0 <= i < 2 ==> #[trigger] final(fm)@[i] == clip16_spec(
            trunc_div(vstd::wrapping::i32_specs::wrapping_mul(old(fm)@[i], volume) as int, 32768) as i32,
        ),
{
    let mut index: usize = 0;
    while index < 2
        invariant
            index <= 2,
            forall|i: int| 0 <= i < index ==> #[trigger] fm@[i] == clip16_spec(
                trunc_div(vstd::wrapping::i32_specs::wrapping_mul(old(fm)@[i], volume) as int, 32768) as i32,
            ),
            forall|i: int| index <= i < 2 ==> #[trigger] fm@[i] == old(fm)@[i],
        decreases 2 - index,
    {
        let scaled = truncated_quotient(fm[index].wrapping_mul(volume), 32768);
        fm[index] = if scaled < -32768 { -32768 } else if scaled > 32767 { 32767 } else { scaled };
        index = index + 1;
    }
}

/// The SSG level scaled by a volume (65536 keeping it).
pub fn scale_ssg(ssg: &mut i32, volume: i32)
    ensures
        *final(ssg) == trunc_div(vstd::wrapping::i32_specs::wrapping_mul(*old(ssg), volume) as int, 65536),
{
    *ssg = truncated_quotient((*ssg).wrapping_mul(volume), 65536);
}

} // verus!
