use vstd::prelude::*;
use super::adpcm::{AdpcmAEngine, AdpcmBEngine, a_clocked, b_clocked, b_written, lemma_a_mix_bound, lemma_b_sample_bound, registers_stored};
use super::registers::registers_written;
use super::fm::{FmEngine, ALL_CHANNELS, mask_has, next_env_counter};
use super::resampler::{FrameSource, SsgResampler, index_after, scale_fm_and_clip, scale_ssg};
use crate::pmd::banks::trunc_div;
use super::rhythm::{RhythmEngine, frame_value, rhythm_advanced, rhythm_mix, rhythm_silent};
use super::ssg::{AMPLITUDES, Ssg, channel_volume_spec, envelope_holds, envelope_volume_spec, ssg_clocked};
use crate::pmd::effects::truncated_quotient;

verus! {

/// How finely the chip is emulated: the internal sample rate is the clock
/// over 8, 24 or 48.
#[derive(Clone, Copy, Debug, PartialEq, Eq, Structural)]
pub enum Fidelity {
    Max,
    Min,
    Med,
}

/// The YM2608 (OPNA): FM, SSG, ADPCM-A (rhythm ROM), ADPCM-B and the
/// sampled rhythm voices, mixed at the internal sample rate.
#[derive(Debug)]
pub struct Ym2608 {
    pub clock_hz: u32,
    pub fidelity: Fidelity,
    pub prescale: u8,
    pub fm_samples_per_output: u8,
    pub fm: FmEngine,
    pub ssg: Ssg,
    pub ssg_resampler: SsgResampler,
    pub adpcm_a: AdpcmAEngine,
    pub adpcm_b: AdpcmBEngine,
    pub rhythm: RhythmEngine,
    pub adpcm_rom_present: bool,
    pub irq_enable: u8,
    pub fm_volume: i32,
    pub psg_volume: i32,
    pub last_fm: [i32; 2],
    pub fm_mute_mask: u32,
    pub ssg_mute_mask: u8,
    pub adpcm_muted: bool,
    pub rhythm_muted: bool,
    pub ssg_peaks: [i32; 3],
    pub adpcm_b_peak: i32,
    pub adpcm_a_peak: i32,
}

/// Whether a register address goes to the FM engine: the first half from
/// 0x20 on, less the mode register and the prescaler registers (0x2e only
/// counts as one while the prescaler is 6), and the second half past the
/// ADPCM-B registers and 0x110.
pub open spec fn fm_register(address: u16, prescale: u8) -> bool {
    ||| 0x20 <= address <= 0xff && address != 0x29 && address != 0x2d && address != 0x2f
        && !(address == 0x2e && prescale == 6)
    ||| 0x111 <= address <= 0x1ff
}

/// Whether ADPCM-A channel `c` is clocked at an FM envelope count: every
/// fourth count, all six channels or (when bit 2 is set) the first four.
pub open spec fn adpcm_a_clocks(env_counter: u32, c: int) -> bool {
    env_counter & 3 == 0 && mask_has(if env_counter & 4 != 0 { 0x0fu32 } else { ALL_CHANNELS }, c)
}

/// What a register write does to the chip: it goes to the one engine
/// its address selects, or sets the interrupt mask or the prescaler.
pub open spec fn chip_written(o: Ym2608, f: Ym2608, address: u16, value: u8) -> bool {
    &&& f.settings() == o.settings()
    &&& f.irq_enable == (if address == 0x29 { value } else { o.irq_enable })
    &&& f.prescale == (if address == 0x2d {
        6
    } else if address == 0x2e && o.prescale == 6 {
        3
    } else if address == 0x2f {
        2
    } else {
        o.prescale
    })
    &&& (address <= 0x0f ==> f.ssg.registers@ == o.ssg.registers@.update(address as int, value))
    &&& (address > 0x0f ==> f.ssg == o.ssg)
    &&& (0x10 <= address <= 0x1f && o.adpcm_rom_present ==> f.adpcm_a.registers.data@
        == registers_stored(o.adpcm_a.registers.data@, (address & 0x0f) as int, value))
    &&& (!(0x10 <= address <= 0x1f && o.adpcm_rom_present) ==> f.adpcm_a == o.adpcm_a)
    &&& (!(0x10 <= address <= 0x1f && !o.adpcm_rom_present) ==> f.rhythm == o.rhythm)
    &&& (fm_register(address, o.prescale) ==> f.fm.registers.data@
        == registers_written(o.fm.registers.data@, address as u32, value))
    &&& (!fm_register(address, o.prescale) ==> f.fm == o.fm)
    &&& (0x100 <= address <= 0x10f ==> {
        &&& f.adpcm_b.registers.data@ == registers_stored(o.adpcm_b.registers.data@, (address & 0x0f) as int, value)
        &&& (f.adpcm_b.channel, f.adpcm_b.memory@) == b_written(
            o.adpcm_b.channel, f.adpcm_b.registers.data@, o.adpcm_b.memory@, (address & 0x0f) as int, value)
    })
    &&& (!(0x100 <= address <= 0x10f) ==> f.adpcm_b == o.adpcm_b)
    &&& (address == 0x110 || address > 0x1ff ==> f == o)
}

/// The levels each voice reached since they were last taken.
#[derive(Clone, Copy, Debug, PartialEq, Eq)]
pub struct ChipPeaks {
    pub fm: [i32; 6],
    pub ssg: [i32; 3],
    pub rhythm: [i32; 6],
    pub adpcm_b: i32,
    pub adpcm_a: i32,
}

/// The FM samples per output sample and the SSG ratio a prescaler setting
/// gives at a fidelity.
pub open spec fn prescale_plan(fidelity: Fidelity, prescale: u8) -> (u8, u8, u8) {
    match fidelity {
        Fidelity::Min => if prescale == 3 { (0u8, 1u8, 3u8) } else if prescale == 2 { (1u8, 1u8, 6u8) } else { (3u8, 2u8, 3u8) },
        Fidelity::Med => if prescale == 3 { (3u8, 2u8, 3u8) } else if prescale == 2 { (2u8, 1u8, 3u8) } else { (6u8, 4u8, 3u8) },
        Fidelity::Max => if prescale == 3 { (9u8, 2u8, 1u8) } else if prescale == 2 { (6u8, 1u8, 1u8) } else { (18u8, 4u8, 1u8) },
    }
}

/// The SSG feeding the resampler, with the peak level of each channel.
pub struct SsgTap {
    ssg: Ssg,
    peaks: [i32; 3],
}

impl SsgTap {
    #[verifier::type_invariant]
    spec fn tap_wf(self) -> bool {
        self.ssg.wf()
    }

    fn new(ssg: Ssg, peaks: [i32; 3]) -> (tap: Self)
        requires
            ssg.wf(),
    {
        SsgTap { ssg, peaks }
    }

    /// The SSG the tap clocks.
    pub closed spec fn tapped(&self) -> Ssg {
        self.ssg
    }

    /// The peak level of each channel so far.
    pub closed spec fn tap_peaks(&self) -> [i32; 3] {
        self.peaks
    }

    fn into_parts(self) -> (parts: (Ssg, [i32; 3]))
        ensures
            parts.0.wf(),
    {
        proof {
            use_type_invariant(&self);
        }
        (self.ssg, self.peaks)
    }
}

/// The three channel levels of an SSG just clocked.
pub open spec fn ssg_levels(clocked: Ssg, c: int) -> i32 {
    AMPLITUDES@[channel_volume_spec(clocked, c, envelope_volume_spec(clocked.registers@, clocked.envelope_state)) as int]
}

/// An SSG clocked once and read: the envelope holds at its end.
pub open spec fn ssg_read(clocked: Ssg) -> Ssg {
    Ssg {
        envelope_state: if envelope_holds(clocked.registers@, clocked.envelope_state) { 32 } else { clocked.envelope_state },
        ..clocked
    }
}

impl FrameSource for SsgTap {
    /// Clocks the SSG once and gives its three channel levels.
    fn next_frame(&mut self) -> (frame: [i32; 3])
        ensures
            final(self).tapped() == ssg_read(ssg_clocked(old(self).tapped())),
            forall|c: int| 0 <= c < 3 ==> #[trigger] frame@[c] == ssg_levels(ssg_clocked(old(self).tapped()), c),
            forall|c: int| 0 <= c < 3 ==> #[trigger] final(self).tap_peaks()@[c] == (if frame@[c] > old(self).tap_peaks()@[c] {
                frame@[c]
            } else {
                old(self).tap_peaks()@[c]
            }),
    {
        proof {
            use_type_invariant(&*self);
        }
        let mut ssg = self.ssg;
        ssg.clock();
        let mut output: [i32; 3] = [0; 3];
        ssg.output(&mut output);
        let mut peaks = self.peaks;
        let mut channel: usize = 0;
        while channel < 3
            invariant
                channel <= 3,
                forall|c: int| 0 <= c < channel ==> #[trigger] peaks@[c] == (if output@[c] > old(self).peaks@[c] {
                    output@[c]
                } else {
                    old(self).peaks@[c]
                }),
                forall|c: int| channel <= c < 3 ==> #[trigger] peaks@[c] == old(self).peaks@[c],
            decreases 3 - channel,
        {
            if output[channel] > peaks[channel] {
                peaks[channel] = output[channel];
            }
            channel = channel + 1;
        }
        self.ssg = ssg;
        self.peaks = peaks;
        output
    }
}

/// The absolute difference of two levels, widened.
pub open spec fn level_change(after: i32, before: i32) -> int {
    let d = after as int - before as int;
    if d < 0 { -d } else { d }
}

impl Ym2608 {
    pub open spec fn wf(&self) -> bool {
        &&& self.fm.wf()
        &&& self.ssg.wf()
        &&& self.adpcm_a.wf()
        &&& self.adpcm_b.wf()
        &&& self.rhythm.wf()
        &&& -32768 <= self.last_fm@[0] <= 32767
        &&& -32768 <= self.last_fm@[1] <= 32767
    }

    /// The fields the register writes and clocks leave alone.
    pub open spec fn settings(&self) -> (u32, Fidelity, i32, i32, u32, u8, bool, bool) {
        (self.clock_hz, self.fidelity, self.fm_volume, self.psg_volume, self.fm_mute_mask, self.ssg_mute_mask,
            self.adpcm_muted, self.rhythm_muted)
    }

    /// A chip at full fidelity with the prescaler at 6, reset.
    pub fn new(clock_hz: u32) -> (chip: Self)
        ensures
            chip.wf(),
            chip.clock_hz == clock_hz,
            chip.fidelity == Fidelity::Max,
            chip.prescale == 6,
            chip.fm_samples_per_output == 18,
            chip.irq_enable == 0x1f,
            chip.fm_volume == 65536 && chip.psg_volume == 65536,
            chip.fm_mute_mask == 0 && chip.ssg_mute_mask == 0,
            !chip.adpcm_muted && !chip.rhythm_muted && !chip.adpcm_rom_present,
    {
        let mut chip = Ym2608 {
            clock_hz,
            fidelity: Fidelity::Max,
            prescale: 6,
            fm_samples_per_output: 18,
            fm: FmEngine::new(),
            ssg: Ssg::new(),
            ssg_resampler: SsgResampler::new(),
            adpcm_a: AdpcmAEngine::new(),
            adpcm_b: AdpcmBEngine::new(),
            rhythm: RhythmEngine::new(),
            adpcm_rom_present: false,
            irq_enable: 0x1f,
            fm_volume: 65536,
            psg_volume: 65536,
            last_fm: [0; 2],
            fm_mute_mask: 0,
            ssg_mute_mask: 0,
            adpcm_muted: false,
            rhythm_muted: false,
            ssg_peaks: [0; 3],
            adpcm_b_peak: 0,
            adpcm_a_peak: 0,
        };
        chip.configure_prescale(6);
        chip.reset();
        chip
    }

    pub fn clock_hz(&self) -> (clock: u32)
        ensures
            clock == self.clock_hz,
    {
        self.clock_hz
    }

    /// The rate at which the chip produces samples.
    pub fn internal_sample_rate(&self) -> (rate: u32)
        ensures
            rate == match self.fidelity {
                Fidelity::Max => self.clock_hz / 8,
                Fidelity::Med => self.clock_hz / 24,
                Fidelity::Min => self.clock_hz / 48,
            },
    {
        match self.fidelity {
            Fidelity::Max => self.clock_hz / 8,
            Fidelity::Med => self.clock_hz / 24,
            Fidelity::Min => self.clock_hz / 48,
        }
    }

    /// Resets the FM, SSG and ADPCM parts, the interrupt enables and the
    /// ADPCM-A rhythm ROM layout.
    pub fn reset(&mut self)
        requires
            old(self).wf(),
        ensures
            final(self).wf(),
            final(self).irq_enable == 0x1f,
            final(self).last_fm@ == seq![0i32, 0],
            final(self).settings() == old(self).settings(),
            final(self).prescale == old(self).prescale,
            final(self).fm_samples_per_output == old(self).fm_samples_per_output,
            final(self).adpcm_rom_present == old(self).adpcm_rom_present,
    {
        self.fm.reset();
        self.ssg.reset();
        self.adpcm_a.reset();
        self.adpcm_b.reset();
        self.last_fm = [0; 2];
        self.irq_enable = 0x1f;
        self.adpcm_a.set_start_end(0, 0x0000, 0x01bf);
        self.adpcm_a.set_start_end(1, 0x01c0, 0x043f);
        self.adpcm_a.set_start_end(2, 0x0440, 0x1b7f);
        self.adpcm_a.set_start_end(3, 0x1b80, 0x1cff);
        self.adpcm_a.set_start_end(4, 0x1d00, 0x1f7f);
        self.adpcm_a.set_start_end(5, 0x1f80, 0x1fff);
    }

    pub fn set_fidelity_max(&mut self)
        ensures
            final(self).fidelity == Fidelity::Max,
            final(self).prescale == old(self).prescale,
            final(self).fm_samples_per_output == prescale_plan(Fidelity::Max, old(self).prescale).0,
    {
        self.fidelity = Fidelity::Max;
        self.configure_prescale(self.prescale);
    }

    pub fn set_fidelity_medium(&mut self)
        ensures
            final(self).fidelity == Fidelity::Med,
            final(self).prescale == old(self).prescale,
            final(self).fm_samples_per_output == prescale_plan(Fidelity::Med, old(self).prescale).0,
    {
        self.fidelity = Fidelity::Med;
        self.configure_prescale(self.prescale);
    }

    pub fn set_fidelity_min(&mut self)
        ensures
            final(self).fidelity == Fidelity::Min,
            final(self).prescale == old(self).prescale,
            final(self).fm_samples_per_output == prescale_plan(Fidelity::Min, old(self).prescale).0,
    {
        self.fidelity = Fidelity::Min;
        self.configure_prescale(self.prescale);
    }

    pub fn set_fm_volume(&mut self, volume: i32)
        ensures
            *final(self) == (Ym2608 { fm_volume: volume, ..*old(self) }),
    {
        self.fm_volume = volume;
    }

    pub fn set_psg_volume(&mut self, volume: i32)
        ensures
            *final(self) == (Ym2608 { psg_volume: volume, ..*old(self) }),
    {
        self.psg_volume = volume;
    }

    /// Mutes or unmutes an output channel: FM 0 to 5, SSG 6 to 8, ADPCM 9,
    /// rhythm 10; other numbers are refused.
    pub fn set_channel_mute(&mut self, channel: usize, muted: bool) -> (accepted: bool)
        ensures
            accepted == (channel <= 10),
            channel <= 5 ==> *final(self) == (Ym2608 {
                fm_mute_mask: if muted { old(self).fm_mute_mask | (1u32 << channel as u32) } else { old(self).fm_mute_mask & !(1u32 << channel as u32) },
                ..*old(self)
            }),
            6 <= channel <= 8 ==> *final(self) == (Ym2608 {
                ssg_mute_mask: if muted { old(self).ssg_mute_mask | (1u8 << (channel - 6) as u8) } else { old(self).ssg_mute_mask & !(1u8 << (channel - 6) as u8) },
                ..*old(self)
            }),
            channel == 9 ==> *final(self) == (Ym2608 { adpcm_muted: muted, ..*old(self) }),
            channel == 10 ==> *final(self) == (Ym2608 { rhythm_muted: muted, ..*old(self) }),
            channel > 10 ==> *final(self) == *old(self),
    {
        if channel <= 5 {
            let bit = 1u32 << channel as u32;
            self.fm_mute_mask = if muted { self.fm_mute_mask | bit } else { self.fm_mute_mask & !bit };
            true
        } else if channel <= 8 {
            let bit = 1u8 << (channel - 6) as u8;
            self.ssg_mute_mask = if muted { self.ssg_mute_mask | bit } else { self.ssg_mute_mask & !bit };
            true
        } else if channel == 9 {
            self.adpcm_muted = muted;
            true
        } else if channel == 10 {
            self.rhythm_muted = muted;
            true
        } else {
            false
        }
    }

    /// Loads the ADPCM-A memory; from then on the rhythm registers drive the
    /// ADPCM-A voices.
    pub fn set_adpcm_a_memory(&mut self, memory: &[u8])
        requires
            old(self).wf(),
        ensures
            final(self).wf(),
            final(self).adpcm_rom_present,
            final(self).adpcm_a.memory@ == memory@,
            final(self).settings() == old(self).settings(),
    {
        self.adpcm_a.set_memory(memory);
        self.adpcm_rom_present = true;
        self.rhythm.set_adpcm_rom_present(true);
    }

    pub fn set_adpcm_b_memory(&mut self, memory: &[u8])
        requires
            old(self).wf(),
        ensures
            final(self).wf(),
            final(self).adpcm_b.memory@ == memory@,
            final(self).settings() == old(self).settings(),
    {
        self.adpcm_b.set_memory(memory);
    }

    /// Loads one sampled rhythm voice, resampled to the output rate.
    pub fn set_rhythm_sample(&mut self, index: usize, sample_rate: u32, samples: &[i16], output_rate: u32) -> (accepted: bool)
        requires
            old(self).wf(),
        ensures
            final(self).wf(),
            final(self).settings() == old(self).settings(),
    {
        self.rhythm.set_sample(index, sample_rate, samples, output_rate)
    }

    /// Adds one frame of the sampled rhythm voices unless they are muted
    /// (they still advance).
    pub fn render_rhythm(&mut self, output: &mut [i32; 2])
        requires
            old(self).wf(),
        ensures
            final(self).wf(),
            final(self).settings() == old(self).settings(),
            *final(self) == (Ym2608 { rhythm: final(self).rhythm, ..*old(self) }),
            rhythm_silent(old(self).rhythm) ==> final(self).rhythm == old(self).rhythm,
            !rhythm_silent(old(self).rhythm) ==> rhythm_advanced(old(self).rhythm, final(self).rhythm, 1),
            old(self).rhythm_muted || rhythm_silent(old(self).rhythm) ==> final(output)@ == old(output)@,
            !old(self).rhythm_muted && !rhythm_silent(old(self).rhythm) ==> final(output)@ == seq![
                vstd::wrapping::i32_specs::wrapping_add(old(output)@[0], rhythm_mix(old(self).rhythm, 0, false, 6) as i32),
                vstd::wrapping::i32_specs::wrapping_add(old(output)@[1], rhythm_mix(old(self).rhythm, 0, true, 6) as i32),
            ],
    {
        let mut rhythm: Vec<i32> = Vec::new();
        rhythm.push(0);
        rhythm.push(0);
        self.rhythm.render(rhythm.as_mut_slice());
        proof {
            if !rhythm_silent(old(self).rhythm) {
                assert(frame_value(rhythm@, 0, false) == rhythm@[0]);
                assert(frame_value(rhythm@, 0, true) == rhythm@[1]);
                assert(rhythm@[0] == rhythm_mix(old(self).rhythm, 0, false, 6));
                assert(rhythm@[1] == rhythm_mix(old(self).rhythm, 0, true, 6));
            }
        }
        if !self.rhythm_muted {
            output[0] = output[0].wrapping_add(rhythm[0]);
            output[1] = output[1].wrapping_add(rhythm[1]);
        }
    }

    /// Writes a chip register: SSG (0x00 to 0x0f), rhythm or ADPCM-A
    /// (0x10 to 0x1f), interrupt enables, prescaler, FM (both banks) and
    /// ADPCM-B (0x100 to 0x10f).
    pub fn write(&mut self, address: u16, value: u8)
        requires
            old(self).wf(),
        ensures
            final(self).wf(),
            chip_written(*old(self), *final(self), address, value),
    {
        if address <= 0x0f {
            self.ssg.write(address as usize, value);
        } else if address <= 0x1f {
            if self.adpcm_rom_present {
                self.adpcm_a.write((address & 0x0f) as usize, value);
            } else {
                self.rhythm.write_register(address as u8, value);
            }
        } else if address == 0x29 {
            self.irq_enable = value;
        } else if address == 0x2d {
            self.configure_prescale(6);
        } else if address == 0x2e && self.prescale == 6 {
            self.configure_prescale(3);
        } else if address == 0x2f {
            self.configure_prescale(2);
        } else if address <= 0xff {
            self.fm.write(address, value);
        } else if address <= 0x10f {
            self.adpcm_b.write((address & 0x0f) as usize, value);
        } else if address == 0x110 {
        } else if address <= 0x1ff {
            self.fm.write(address, value);
        }
    }

    /// Sets the prescaler and the FM and SSG rates it implies.
    pub fn configure_prescale(&mut self, prescale: u8)
        ensures
            final(self).prescale == prescale,
            final(self).fm_samples_per_output == prescale_plan(old(self).fidelity, prescale).0,
            final(self).fidelity == old(self).fidelity,
            final(self).settings() == old(self).settings(),
            final(self).fm == old(self).fm && final(self).ssg == old(self).ssg,
            final(self).adpcm_a == old(self).adpcm_a && final(self).adpcm_b == old(self).adpcm_b,
            final(self).rhythm == old(self).rhythm,
            final(self).irq_enable == old(self).irq_enable,
            final(self).adpcm_rom_present == old(self).adpcm_rom_present,
            final(self).last_fm == old(self).last_fm,
    {
        self.prescale = prescale;
        let (fm_samples, output_samples, source_samples): (u8, u8, u8) = match self.fidelity {
            Fidelity::Min => if prescale == 3 { (0, 1, 3) } else if prescale == 2 { (1, 1, 6) } else { (3, 2, 3) },
            Fidelity::Med => if prescale == 3 { (3, 2, 3) } else if prescale == 2 { (2, 1, 3) } else { (6, 4, 3) },
            Fidelity::Max => if prescale == 3 { (9, 2, 1) } else if prescale == 2 { (6, 1, 1) } else { (18, 4, 1) },
        };
        self.fm_samples_per_output = fm_samples;
        self.ssg_resampler.configure(output_samples, source_samples);
    }

    /// Clocks FM (all channels) and ADPCM once and mixes them: FM channels
    /// 4 to 6 only when their interrupt enable bit allows, muted channels
    /// left out, ADPCM-A every fourth envelope step; the peaks follow what
    /// ADPCM-A and ADPCM-B added, and the mix is scaled by the FM volume.
    pub fn clock_fm_and_adpcm(&mut self)
        requires
            old(self).wf(),
        ensures
            final(self).wf(),
            final(self).settings() == old(self).settings(),
            final(self).prescale == old(self).prescale,
            final(self).fm_samples_per_output == old(self).fm_samples_per_output,
            final(self).ssg_resampler == old(self).ssg_resampler,
            final(self).adpcm_a_peak >= old(self).adpcm_a_peak,
            final(self).adpcm_b_peak >= old(self).adpcm_b_peak,
            -32768 <= final(self).last_fm@[0] <= 32767,
            -32768 <= final(self).last_fm@[1] <= 32767,
            final(self).ssg == old(self).ssg && final(self).rhythm == old(self).rhythm,
            final(self).irq_enable == old(self).irq_enable && final(self).adpcm_rom_present == old(self).adpcm_rom_present,
            final(self).ssg_peaks == old(self).ssg_peaks,
            final(self).fm.env_counter == next_env_counter(old(self).fm.env_counter),
            final(self).adpcm_b.registers == old(self).adpcm_b.registers,
            final(self).adpcm_b.memory@ == old(self).adpcm_b.memory@,
            final(self).adpcm_b.channel
                == b_clocked(old(self).adpcm_b.channel, old(self).adpcm_b.registers.data@, old(self).adpcm_b.memory@),
            final(self).adpcm_a.registers == old(self).adpcm_a.registers,
            forall|c: int| 0 <= c < 6 ==> #[trigger] final(self).adpcm_a.channels@[c] == (if adpcm_a_clocks(
                next_env_counter(old(self).fm.env_counter), c) {
                a_clocked(old(self).adpcm_a.channels@[c], old(self).adpcm_a.registers.data@, old(self).adpcm_a.memory@).0
            } else {
                old(self).adpcm_a.channels@[c]
            }),
    {
        let fm_mask = if self.irq_enable & 0x80 != 0 { ALL_CHANNELS } else { 0x07 };
        let env_counter = self.fm.clock(ALL_CHANNELS);
        if env_counter & 3 == 0 {
            let adpcm_mask = if env_counter & 4 != 0 { 0x0f } else { ALL_CHANNELS };
            self.adpcm_a.clock(adpcm_mask);
        }
        self.adpcm_b.clock();
        let output_mask = fm_mask & !self.fm_mute_mask;
        let mut output = self.fm.output(1, 32767, output_mask);
        let before_a = output;
        let adpcm_mask = if self.adpcm_muted { 0 } else { ALL_CHANNELS };
        proof {
            lemma_a_mix_bound(self.adpcm_a.channels@, self.adpcm_a.registers.data@, adpcm_mask, 6, false);
            lemma_a_mix_bound(self.adpcm_a.channels@, self.adpcm_a.registers.data@, adpcm_mask, 6, true);
        }
        self.adpcm_a.output(&mut output, adpcm_mask);
        let a_delta = larger_change(output, before_a);
        if a_delta > self.adpcm_a_peak {
            self.adpcm_a_peak = a_delta;
        }
        let before_b = output;
        let shift: u32 = if self.adpcm_muted { 0 } else { 1 };
        proof {
            lemma_b_sample_bound(self.adpcm_b.channel, self.adpcm_b.registers.data@, shift);
        }
        self.adpcm_b.output(&mut output, shift);
        let b_delta = larger_change(output, before_b);
        if b_delta > self.adpcm_b_peak {
            self.adpcm_b_peak = b_delta;
        }
        scale_fm_and_clip(&mut output, self.fm_volume);
        self.last_fm = output;
    }

    /// Takes the voice peaks, clearing them.
    pub fn take_peaks(&mut self) -> (peaks: ChipPeaks)
        requires
            old(self).wf(),
        ensures
            final(self).wf(),
            peaks.fm == old(self).fm.peaks,
            peaks.ssg == old(self).ssg_peaks,
            peaks.rhythm == old(self).rhythm.peaks,
            peaks.adpcm_b == old(self).adpcm_b_peak,
            peaks.adpcm_a == old(self).adpcm_a_peak,
            final(self).ssg_peaks@ == seq![0i32, 0, 0],
            final(self).adpcm_b_peak == 0 && final(self).adpcm_a_peak == 0,
            final(self).settings() == old(self).settings(),
    {
        let fm = self.fm.take_peaks();
        let rhythm = self.rhythm.take_peaks();
        let ssg = self.ssg_peaks;
        self.ssg_peaks = [0; 3];
        let adpcm_b = self.adpcm_b_peak;
        self.adpcm_b_peak = 0;
        let adpcm_a = self.adpcm_a_peak;
        self.adpcm_a_peak = 0;
        ChipPeaks { fm, ssg, rhythm, adpcm_b, adpcm_a }
    }

    /// One internal sample: FM/ADPCM clocked as often as the prescaler
    /// asks (at one in three with averaging when the FM rate is a third of
    /// the output), the SSG through its resampler (channel one muted by the
    /// first SSG mute bit) scaled by the SSG volume.
    pub fn generate_internal(&mut self) -> (sample: [i32; 3])
        requires
            old(self).wf(),
        ensures
            final(self).wf(),
            final(self).settings() == old(self).settings(),
            final(self).prescale == old(self).prescale,
            final(self).fm_samples_per_output == old(self).fm_samples_per_output,
            final(self).rhythm == old(self).rhythm,
            final(self).rhythm_muted == old(self).rhythm_muted,
            final(self).ssg_resampler.sample_index == index_after(old(self).ssg_resampler.sample_index, 1),
            final(self).ssg_resampler.ratio == old(self).ssg_resampler.ratio,
            old(self).fm_samples_per_output != 0 ==> sample@[0] == final(self).last_fm@[0] && sample@[1] == final(self).last_fm@[1],
            old(self).fm_samples_per_output != 0
                && old(self).ssg_resampler.sample_index % (old(self).fm_samples_per_output as u32) == 0
                ==> final(self).fm.env_counter == next_env_counter(old(self).fm.env_counter),
            old(self).fm_samples_per_output != 0
                && old(self).ssg_resampler.sample_index % (old(self).fm_samples_per_output as u32) != 0
                ==> final(self).fm == old(self).fm && final(self).last_fm == old(self).last_fm,
            old(self).fm_samples_per_output == 0 && old(self).ssg_resampler.sample_index % 3 == 0
                ==> sample@[0] == final(self).last_fm@[0] && sample@[1] == final(self).last_fm@[1]
                && final(self).fm.env_counter == next_env_counter(old(self).fm.env_counter),
            old(self).fm_samples_per_output == 0 && old(self).ssg_resampler.sample_index % 3 == 1 ==> {
                &&& sample@[0] == trunc_div(old(self).last_fm@[0] + final(self).last_fm@[0], 2)
                &&& sample@[1] == trunc_div(old(self).last_fm@[1] + final(self).last_fm@[1], 2)
                &&& final(self).fm.env_counter == next_env_counter(old(self).fm.env_counter)
            },
            old(self).fm_samples_per_output == 0 && old(self).ssg_resampler.sample_index % 3 == 2
                ==> sample@[0] == old(self).last_fm@[0] && sample@[1] == old(self).last_fm@[1] && final(self).fm == old(self).fm,
            -32768 <= sample@[0] <= 32767,
            -32768 <= sample@[1] <= 32767,
    {
        let sample_index = self.ssg_resampler.sample_index();
        let fm: [i32; 2] = if self.fm_samples_per_output != 0 {
            if sample_index % (self.fm_samples_per_output as u32) == 0 {
                self.clock_fm_and_adpcm();
            }
            self.last_fm
        } else {
            let step = sample_index % 3;
            if step == 0 {
                self.clock_fm_and_adpcm();
            }
            let mut selected = self.last_fm;
            if step == 1 {
                self.clock_fm_and_adpcm();
                selected = [
                    truncated_quotient(selected[0] + self.last_fm[0], 2),
                    truncated_quotient(selected[1] + self.last_fm[1], 2),
                ];
            }
            selected
        };
        let mut tap = SsgTap::new(self.ssg, self.ssg_peaks);
        let mut ssg_output: [i32; 1] = [0];
        self.ssg_resampler.render(&mut ssg_output, &mut tap);
        let (ssg, peaks) = tap.into_parts();
        self.ssg = ssg;
        self.ssg_peaks = peaks;
        if self.ssg_mute_mask & 1 != 0 {
            ssg_output[0] = 0;
        }
        let mut ssg_sample = ssg_output[0];
        scale_ssg(&mut ssg_sample, self.psg_volume);
        [fm[0], fm[1], ssg_sample]
    }
}

/// The larger change of the two sides, saturated to the level range.
fn larger_change(after: [i32; 2], before: [i32; 2]) -> (change: i32)
    requires
        -0x1000_0000 <= after@[0] <= 0x1000_0000,
        -0x1000_0000 <= after@[1] <= 0x1000_0000,
        -0x1000_0000 <= before@[0] <= 0x1000_0000,
        -0x1000_0000 <= before@[1] <= 0x1000_0000,
    ensures
        change == (if level_change(after@[0], before@[0]) >= level_change(after@[1], before@[1]) {
            level_change(after@[0], before@[0])
        } else {
            level_change(after@[1], before@[1])
        }),
{
    let left = after[0] as i64 - before[0] as i64;
    let right = after[1] as i64 - before[1] as i64;
    let left = if left < 0 { -left } else { left };
    let right = if right < 0 { -right } else { right };
    (if left >= right { left } else { right }) as i32
}

} // verus!
