use vstd::prelude::*;
use std::collections::VecDeque;
use super::chip::{ChipPeaks, Ym2608, chip_written};
use super::rhythm::{rhythm_advanced, rhythm_silent};
use super::resampler::{FIXED_TIME_ONE, wrap_steps};

verus! {

/// The rate of the reference player's source stream.
pub const SOURCE_RATE: u32 = 55_466;

/// Gives one stereo frame per call.
pub trait StereoSource {
    fn next_stereo(&mut self) -> [i32; 2];
}

/// A stereo frame with another added to it, wrapping.
pub open spec fn frame_plus(a: [i32; 2], b: [i32; 2]) -> [i32; 2] {
    [vstd::wrapping::i32_specs::wrapping_add(a[0], b[0]), vstd::wrapping::i32_specs::wrapping_add(a[1], b[1])]
}

/// Holds each source frame for the output frames that fall before the
/// next, on a 2^48 fixed-point time base.
#[derive(Clone, Copy, Debug, PartialEq, Eq)]
pub struct ChipScheduler {
    pub source_step: u64,
    pub output_step: u64,
    pub source_position: u64,
    pub output_position: u64,
    pub last: [i32; 2],
}

impl ChipScheduler {
    /// A scheduler for the two rates; none when either is zero.
    pub fn new(chip_rate: u32, output_rate: u32) -> (scheduler: Option<Self>)
        ensures
            (chip_rate == 0 || output_rate == 0) <==> scheduler is None,
            scheduler matches Some(s) ==> {
                &&& s.source_step == FIXED_TIME_ONE / chip_rate as u64
                &&& s.output_step == FIXED_TIME_ONE / output_rate as u64
                &&& s.source_position == 0 && s.output_position == 0
                &&& s.last@ == seq![0i32, 0]
            },
    {
        if chip_rate == 0 || output_rate == 0 {
            return None;
        }
        Some(ChipScheduler {
            source_step: FIXED_TIME_ONE / chip_rate as u64,
            output_step: FIXED_TIME_ONE / output_rate as u64,
            source_position: 0,
            output_position: 0,
            last: [0; 2],
        })
    }

    /// Whether the source must give a frame before the next output frame.
    pub fn due(&self) -> (due: bool)
        ensures
            due == (self.source_position <= self.output_position),
    {
        self.source_position <= self.output_position
    }

    /// Takes a source frame and moves the source time on; false when the
    /// source time wraps around (the output can then never be reached).
    pub fn take_frame(&mut self, frame: [i32; 2]) -> (advanced: bool)
        ensures
            final(self).last == frame,
            final(self).source_step == old(self).source_step,
            final(self).output_step == old(self).output_step,
            final(self).output_position == old(self).output_position,
            advanced <==> old(self).source_position <= u64::MAX - old(self).source_step,
            advanced ==> final(self).source_position == old(self).source_position + old(self).source_step,
    {
        self.last = frame;
        if self.source_position > u64::MAX - self.source_step {
            self.source_position = self.source_position.wrapping_add(self.source_step);
            return false;
        }
        self.source_position = self.source_position + self.source_step;
        true
    }

    /// Adds the held frame to an output frame and moves the output time on.
    pub fn emit(&mut self, destination: [i32; 2]) -> (frame: [i32; 2])
        ensures
            frame@ == seq![
                vstd::wrapping::i32_specs::wrapping_add(destination@[0], old(self).last@[0]),
                vstd::wrapping::i32_specs::wrapping_add(destination@[1], old(self).last@[1]),
            ],
            *final(self) == (ChipScheduler {
                output_position: vstd::wrapping::u64_specs::wrapping_add(old(self).output_position, old(self).output_step),
                ..*old(self)
            }),
    {
        let frame = [destination[0].wrapping_add(self.last[0]), destination[1].wrapping_add(self.last[1])];
        self.output_position = self.output_position.wrapping_add(self.output_step);
        frame
    }

    /// Adds to each output frame the latest source frame, clocking the
    /// source whenever its time has not passed the output's.
    pub fn render<S: StereoSource>(&mut self, output: &mut [[i32; 2]], source: &mut S)
        requires
            old(self).source_step > 0,
        ensures
            final(output)@.len() == old(output)@.len(),
            final(self).source_step == old(self).source_step,
            final(self).output_step == old(self).output_step,
            final(self).output_position == wrap_steps(old(self).output_position, old(self).output_step, old(output)@.len()),
            old(output)@.len() == 0 ==> *final(self) == *old(self),
            old(output)@.len() > 0 ==> final(output)@.last() == frame_plus(old(output)@.last(), final(self).last),
    {
        let mut index: usize = 0;
        let ghost mut emitted: [i32; 2] = self.last;
        while index < output.len()
            invariant
                index <= output@.len(),
                output@.len() == old(output)@.len(),
                self.source_step == old(self).source_step,
                self.output_step == old(self).output_step,
                old(self).source_step > 0,
                self.output_position == wrap_steps(old(self).output_position, old(self).output_step, index as nat),
                index == 0 ==> *self == *old(self),
                index > 0 ==> self.last == emitted && output@[index - 1] == frame_plus(old(output)@[index - 1], emitted),
                forall|j: int| index <= j < output@.len() ==> #[trigger] output@[j] == old(output)@[j],
            decreases output@.len() - index,
        {
            let ghost at_output = self.output_position;
            while self.due()
                invariant
                    self.source_step == old(self).source_step,
                    self.output_step == old(self).output_step,
                    self.output_position == at_output,
                    old(self).source_step > 0,
                decreases (if self.source_position <= self.output_position {
                    self.output_position - self.source_position + 1
                } else {
                    0
                }),
            {
                let frame = source.next_stereo();
                if !self.take_frame(frame) {
                    break;
                }
            }
            proof {
                emitted = self.last;
            }
            let frame = self.emit(output[index]);
            output[index] = frame;
            proof {
                assert(frame@ =~= frame_plus(old(output)@[index as int], emitted)@);
            }
            index = index + 1;
        }
    }
}

/// Renders the chip at a target rate without interpolation (or at the
/// source rate of the interpolating path).
#[derive(Debug)]
pub struct ChipRenderer {
    pub chip: Ym2608,
    pub scheduler: ChipScheduler,
    pub interpolation: bool,
    pub target_rate: u32,
}

impl ChipRenderer {
    pub open spec fn wf(&self) -> bool {
        self.chip.wf() && self.scheduler.source_step > 0
    }

    /// A renderer for a chip clock and target rate; none when either is
    /// zero or the clock gives no internal samples. With interpolation the
    /// chip runs at the source rate.
    pub fn new(clock_hz: u32, target_rate: u32, interpolation: bool) -> (renderer: Option<Self>)
        ensures
            (clock_hz < 8 || target_rate == 0) <==> renderer is None,
            renderer matches Some(r) ==> {
                &&& r.wf()
                &&& r.target_rate == target_rate
                &&& r.interpolation == interpolation
                &&& r.chip.clock_hz == clock_hz
                &&& r.scheduler.output_step == FIXED_TIME_ONE / (if interpolation { SOURCE_RATE } else { target_rate }) as u64
            },
    {
        if clock_hz == 0 || target_rate == 0 {
            return None;
        }
        let chip = Ym2608::new(clock_hz);
        let scheduler_rate = if interpolation { SOURCE_RATE } else { target_rate };
        let scheduler = match ChipScheduler::new(chip.internal_sample_rate(), scheduler_rate) {
            Some(scheduler) => scheduler,
            None => {
                return None;
            },
        };
        proof {
            assert(FIXED_TIME_ONE / (clock_hz / 8) as u64 > 0) by (nonlinear_arith)
                requires
                    clock_hz >= 8,
                    FIXED_TIME_ONE == 0x1_0000_0000_0000u64,
            ;
        }
        Some(ChipRenderer { chip, scheduler, interpolation, target_rate })
    }

    pub fn write(&mut self, address: u16, value: u8)
        requires
            old(self).wf(),
        ensures
            final(self).wf(),
            final(self).scheduler == old(self).scheduler,
            final(self).target_rate == old(self).target_rate,
            final(self).interpolation == old(self).interpolation,
            chip_written(old(self).chip, final(self).chip, address, value),
    {
        self.chip.write(address, value);
    }

    pub fn set_fm_volume(&mut self, volume: i32)
        ensures
            *final(self) == (ChipRenderer { chip: Ym2608 { fm_volume: volume, ..old(self).chip }, ..*old(self) }),
    {
        self.chip.set_fm_volume(volume);
    }

    pub fn set_psg_volume(&mut self, volume: i32)
        ensures
            *final(self) == (ChipRenderer { chip: Ym2608 { psg_volume: volume, ..old(self).chip }, ..*old(self) }),
    {
        self.chip.set_psg_volume(volume);
    }

    pub fn set_adpcm_a_memory(&mut self, memory: &[u8])
        requires
            old(self).wf(),
        ensures
            final(self).wf(),
            final(self).chip.adpcm_a.memory@ == memory@,
            final(self).scheduler == old(self).scheduler,
            final(self).target_rate == old(self).target_rate,
            final(self).interpolation == old(self).interpolation,
    {
        self.chip.set_adpcm_a_memory(memory);
    }

    /// Changes the output rate of the direct path; refused with
    /// interpolation or a zero rate.
    pub fn set_target_rate(&mut self, target_rate: u32) -> (accepted: bool)
        ensures
            accepted == (target_rate != 0 && !old(self).interpolation),
            accepted ==> *final(self) == (ChipRenderer {
                target_rate,
                scheduler: ChipScheduler { output_step: FIXED_TIME_ONE / target_rate as u64, ..old(self).scheduler },
                ..*old(self)
            }),
            !accepted ==> *final(self) == *old(self),
    {
        if target_rate == 0 || self.interpolation {
            return false;
        }
        self.target_rate = target_rate;
        self.scheduler.output_step = FIXED_TIME_ONE / target_rate as u64;
        true
    }

    pub fn take_peaks(&mut self) -> (peaks: ChipPeaks)
        requires
            old(self).wf(),
        ensures
            final(self).wf(),
    {
        self.chip.take_peaks()
    }

    pub fn set_channel_mute(&mut self, channel: usize, muted: bool) -> (accepted: bool)
        requires
            old(self).wf(),
        ensures
            final(self).wf(),
            accepted == (channel <= 10),
    {
        self.chip.set_channel_mute(channel, muted)
    }

    pub fn target_rate(&self) -> (rate: u32)
        ensures
            rate == self.target_rate,
    {
        self.target_rate
    }

    pub fn interpolation(&self) -> (interpolation: bool)
        ensures
            interpolation == self.interpolation,
    {
        self.interpolation
    }

    pub fn fm_volume(&self) -> (volume: i32)
        ensures
            volume == self.chip.fm_volume,
    {
        self.chip.fm_volume
    }

    pub fn psg_volume(&self) -> (volume: i32)
        ensures
            volume == self.chip.psg_volume,
    {
        self.chip.psg_volume
    }

    /// One source frame: the chip's internal sample (SSG mixed into both
    /// sides) with the sampled rhythm added.
    fn generate_source(&mut self) -> (frame: [i32; 2])
        requires
            old(self).wf(),
        ensures
            final(self).wf(),
            final(self).scheduler == old(self).scheduler,
            final(self).target_rate == old(self).target_rate,
            final(self).interpolation == old(self).interpolation,
            final(self).chip.settings() == old(self).chip.settings(),
            rhythm_silent(old(self).chip.rhythm) ==> final(self).chip.rhythm == old(self).chip.rhythm,
            !rhythm_silent(old(self).chip.rhythm) ==> rhythm_advanced(old(self).chip.rhythm, final(self).chip.rhythm, 1),
    {
        let sample = self.chip.generate_internal();
        let mut stereo = [sample[0].wrapping_add(sample[2]), sample[1].wrapping_add(sample[2])];
        self.chip.render_rhythm(&mut stereo);
        stereo
    }

    /// Adds chip output to `output` at the scheduler's rate.
    pub fn render_source(&mut self, output: &mut [[i32; 2]])
        requires
            old(self).wf(),
        ensures
            final(self).wf(),
            final(output)@.len() == old(output)@.len(),
            final(self).target_rate == old(self).target_rate,
            final(self).interpolation == old(self).interpolation,
            final(self).scheduler.output_step == old(self).scheduler.output_step,
            final(self).scheduler.output_position
                == wrap_steps(old(self).scheduler.output_position, old(self).scheduler.output_step, old(output)@.len()),
            old(output)@.len() == 0 ==> *final(self) == *old(self),
            old(output)@.len() > 0 ==> final(output)@.last() == frame_plus(old(output)@.last(), final(self).scheduler.last),
    {
        let mut index: usize = 0;
        let ghost mut emitted: [i32; 2] = self.scheduler.last;
        while index < output.len()
            invariant
                index <= output@.len(),
                output@.len() == old(output)@.len(),
                self.wf(),
                self.target_rate == old(self).target_rate,
                self.interpolation == old(self).interpolation,
                self.scheduler.output_step == old(self).scheduler.output_step,
                self.scheduler.output_position
                    == wrap_steps(old(self).scheduler.output_position, old(self).scheduler.output_step, index as nat),
                index == 0 ==> *self == *old(self),
                index > 0 ==> self.scheduler.last == emitted && output@[index - 1] == frame_plus(old(output)@[index - 1], emitted),
                forall|j: int| index <= j < output@.len() ==> #[trigger] output@[j] == old(output)@[j],
            decreases output@.len() - index,
        {
            let ghost at_output = self.scheduler.output_position;
            while self.scheduler.due()
                invariant
                    self.wf(),
                    self.target_rate == old(self).target_rate,
                    self.interpolation == old(self).interpolation,
                    self.scheduler.output_step == old(self).scheduler.output_step,
                    self.scheduler.output_position == at_output,
                decreases (if self.scheduler.source_position <= self.scheduler.output_position {
                    self.scheduler.output_position - self.scheduler.source_position + 1
                } else {
                    0
                }),
            {
                let frame = self.generate_source();
                if !self.scheduler.take_frame(frame) {
                    break;
                }
            }
            proof {
                emitted = self.scheduler.last;
            }
            let frame = self.scheduler.emit(output[index]);
            output[index] = frame;
            proof {
                assert(frame@ =~= frame_plus(old(output)@[index as int], emitted)@);
            }
            index = index + 1;
        }
    }

    /// Fills `output`: first with the buffered frames (oldest first, taken
    /// from the buffer), then with chip output.
    pub fn render_with_prefill(&mut self, output: &mut [[i32; 2]], prebuffer: &mut VecDeque<[i32; 2]>)
        requires
            old(self).wf(),
        ensures
            final(self).wf(),
            final(output)@.len() == old(output)@.len(),
            ({
                let used: int = if old(prebuffer)@.len() < old(output)@.len() { old(prebuffer)@.len() as int } else { old(output)@.len() as int };
                &&& final(prebuffer)@ == old(prebuffer)@.subrange(used as int, old(prebuffer)@.len() as int)
                &&& forall|i: int| 0 <= i < used ==> #[trigger] final(output)@[i] == old(prebuffer)@[i]
                &&& final(self).scheduler.output_position == wrap_steps(old(self).scheduler.output_position,
                    old(self).scheduler.output_step, (old(output)@.len() - used) as nat)
                &&& used == old(output)@.len() ==> *final(self) == *old(self)
                &&& used < old(output)@.len() ==> final(output)@.last()
                    == frame_plus(old(output)@.last(), final(self).scheduler.last)
            }),
    {
        let mut index: usize = 0;
        while index < output.len() && prebuffer.len() > 0
            invariant
                index <= output@.len(),
                output@.len() == old(output)@.len(),
                index <= old(prebuffer)@.len(),
                prebuffer@ == old(prebuffer)@.subrange(index as int, old(prebuffer)@.len() as int),
                forall|i: int| 0 <= i < index ==> #[trigger] output@[i] == old(prebuffer)@[i],
                forall|j: int| index <= j < output@.len() ==> #[trigger] output@[j] == old(output)@[j],
            decreases output@.len() - index,
        {
            let frame = prebuffer.pop_front().unwrap();
            output[index] = frame;
            index = index + 1;
            assert(prebuffer@ =~= old(prebuffer)@.subrange(index as int, old(prebuffer)@.len() as int));
        }
        if index < output.len() {
            let mut rest: Vec<[i32; 2]> = Vec::new();
            let mut k = index;
            while k < output.len()
                invariant
                    index <= k <= output@.len(),
                    rest@.len() == k - index,
                    forall|j: int| 0 <= j < k - index ==> #[trigger] rest@[j] == output@[index + j],
                    forall|j: int| index <= j < output@.len() ==> #[trigger] output@[j] == old(output)@[j],
                decreases output@.len() - k,
            {
                rest.push(output[k]);
                k = k + 1;
            }
            let ghost unrendered = rest@;
            self.render_source(rest.as_mut_slice());
            let mut k = index;
            while k < output.len()
                invariant
                    index <= k <= output@.len(),
                    output@.len() == old(output)@.len(),
                    rest@.len() == output@.len() - index,
                    forall|i: int| 0 <= i < index ==> #[trigger] output@[i] == old(prebuffer)@[i],
                    forall|i: int| index <= i < k ==> #[trigger] output@[i] == rest@[i - index],
                    index <= old(prebuffer)@.len(),
                decreases output@.len() - k,
            {
                output[k] = rest[k - index];
                k = k + 1;
            }
            proof {
                assert(unrendered.last() == old(output)@.last());
                assert(output@.last() == rest@.last());
            }
        } else {
            proof {
                assert(index == output@.len());
            }
        }
    }

    /// Fills `output` with chip output.
    pub fn render(&mut self, output: &mut [[i32; 2]])
        requires
            old(self).wf(),
        ensures
            final(self).wf(),
            final(output)@.len() == old(output)@.len(),
            final(self).scheduler.output_position
                == wrap_steps(old(self).scheduler.output_position, old(self).scheduler.output_step, old(output)@.len()),
            old(output)@.len() == 0 ==> *final(self) == *old(self),
            old(output)@.len() > 0 ==> final(output)@.last() == frame_plus(old(output)@.last(), final(self).scheduler.last),
    {
        let mut empty: VecDeque<[i32; 2]> = VecDeque::new();
        self.render_with_prefill(output, &mut empty);
    }
}

} // verus!
