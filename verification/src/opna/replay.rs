use vstd::prelude::*;
use super::fm::{FmEngine, ALL_CHANNELS, clip_ok, fm_mix, next_env_counter};
use super::chip::{ssg_levels, ssg_read};
use super::registers::registers_written;
use super::ssg::{Ssg, ssg_clocked, AMPLITUDES};

verus! {

/// Replays a stream of OPNA register writes through the FM and SSG engines,
/// one internal sample per clock.
#[derive(Clone, Debug)]
pub struct RegisterReplay {
    pub fm: FmEngine,
    pub ssg: Ssg,
}

/// Whether an address belongs to the SSG part.
pub open spec fn is_ssg_address(address: u16) -> bool {
    address <= 0x0f
}

/// Whether an address belongs to the FM part (both banks).
pub open spec fn is_fm_address(address: u16) -> bool {
    (0x20 <= address <= 0xff) || (0x111 <= address <= 0x1ff)
}

impl RegisterReplay {
    pub open spec fn wf(&self) -> bool {
        self.fm.wf() && self.ssg.wf()
    }

    pub fn new() -> (replay: Self)
        ensures
            replay.wf(),
    {
        RegisterReplay { fm: FmEngine::new(), ssg: Ssg::new() }
    }

    pub fn reset(&mut self)
        requires
            old(self).wf(),
        ensures
            final(self).wf(),
            final(self).ssg.registers@ == Seq::new(16, |i: int| 0u8),
            final(self).ssg.tone_count@ == seq![0u32, 0, 0] && final(self).ssg.tone_state@ == seq![0u32, 0, 0],
            final(self).ssg.envelope_count == 0 && final(self).ssg.envelope_state == 0,
            final(self).ssg.noise_count == 0 && final(self).ssg.noise_state == 1,
            final(self).fm.env_counter == 0,
            final(self).fm.active_channels == ALL_CHANNELS && final(self).fm.modified_channels == ALL_CHANNELS,
            final(self).fm.prepare_count == 0,
    {
        self.fm.reset();
        self.ssg.reset();
    }

    /// Routes a write to the SSG or FM part; other addresses are ignored.
    pub fn write(&mut self, address: u16, value: u8)
        requires
            old(self).wf(),
        ensures
            final(self).wf(),
            is_ssg_address(address) ==> final(self).ssg.registers@ == old(self).ssg.registers@.update(address as int, value)
                && final(self).fm == old(self).fm,
            is_fm_address(address) ==> final(self).fm.registers.data@
                == registers_written(old(self).fm.registers.data@, address as u32, value)
                && final(self).ssg == old(self).ssg,
            !is_ssg_address(address) && !is_fm_address(address) ==> *final(self) == *old(self),
    {
        if address <= 0x0f {
            self.ssg.write(address as usize, value);
        } else if (0x20 <= address && address <= 0xff) || (0x111 <= address && address <= 0x1ff) {
            self.fm.write(address, value);
        }
    }

    /// Clocks both parts once and returns the FM left/right and summed SSG output.
    pub fn clock(&mut self) -> (output: [i32; 3])
        requires
            old(self).wf(),
        ensures
            final(self).wf(),
            final(self).ssg.registers == old(self).ssg.registers,
            final(self).ssg.noise_state == ssg_clocked(old(self).ssg).noise_state,
            final(self).ssg.tone_state == ssg_clocked(old(self).ssg).tone_state,
            final(self).ssg == ssg_read(ssg_clocked(old(self).ssg)),
            output@[2] == ssg_levels(ssg_clocked(old(self).ssg), 0) + ssg_levels(ssg_clocked(old(self).ssg), 1)
                + ssg_levels(ssg_clocked(old(self).ssg), 2),
            final(self).fm.env_counter == next_env_counter(old(self).fm.env_counter),
            exists|clocked: FmEngine| {
                &&& clocked.wf()
                &&& clocked.env_counter == next_env_counter(old(self).fm.env_counter)
                &&& clocked.registers == final(self).fm.registers
                &&& output@[0] == (#[trigger] fm_mix(clocked, ALL_CHANNELS, 1, 32767, 6)).0
                &&& output@[1] == fm_mix(clocked, ALL_CHANNELS, 1, 32767, 6).1
            },
            0 <= output@[2] <= 3 * 16382,
            -0xc0000 <= output@[0] <= 0xc0000,
            -0xc0000 <= output@[1] <= 0xc0000,
    {
        self.fm.clock(ALL_CHANNELS);
        let ghost clocked = self.fm;
        let fm = self.fm.output(1, 32767, ALL_CHANNELS);
        self.ssg.clock();
        let mut ssg: [i32; 3] = [0, 0, 0];
        self.ssg.output(&mut ssg);
        [fm[0], fm[1], ssg[0] + ssg[1] + ssg[2]]
    }
}

impl Default for RegisterReplay {
    fn default() -> (replay: Self)
        ensures
            replay.wf(),
    {
        RegisterReplay::new()
    }
}

} // verus!
