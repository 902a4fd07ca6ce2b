use vstd::prelude::*;

verus! {

/// A sample clamped to the 16-bit range.
pub open spec fn clamp_i16_spec(value: i32) -> i16 {
    if value < -32768 {
        -32768i16
    } else if value > 32767 {
        32767i16
    } else {
        value as i16
    }
}

/// Clamps a rendered sample to 16 bits.
pub fn clamp_i16(value: i32) -> (sample: i16)
    ensures
        sample == clamp_i16_spec(value),
{
    if value < -32768 {
        -32768
    } else if value > 32767 {
        32767
    } else {
        value as i16
    }
}

/// The byte offset of a channel's sample in interleaved 16-bit stereo PCM.
pub open spec fn sample_offset(frame: u64, channel: usize) -> int {
    frame as int * 4 + channel as int * 2
}

/// The signed 16-bit little-endian number at an offset.
pub open spec fn le_i16_at(bytes: Seq<u8>, offset: int) -> i16 {
    let unsigned = bytes[offset] as int + bytes[offset + 1] as int * 256;
    if unsigned >= 32768 { (unsigned - 65536) as i16 } else { unsigned as i16 }
}

/// Reads one channel's sample of a frame of interleaved 16-bit
/// little-endian stereo PCM.
pub fn read_i16(bytes: &[u8], frame: u64, channel: usize) -> (sample: i16)
    requires
        channel < 2,
        sample_offset(frame, channel) + 1 < bytes@.len(),
    ensures
        sample == le_i16_at(bytes@, sample_offset(frame, channel)),
{
    let length = bytes.len();
    assert(sample_offset(frame, channel) + 1 < length);
    let offset = (frame as usize) * 4 + channel * 2;
    let unsigned: u16 = (bytes[offset] as u16) + (bytes[offset + 1] as u16) * 256;
    if unsigned >= 32768 {
        ((unsigned as i32) - 65536) as i16
    } else {
        unsigned as i16
    }
}

/// Where and how two sample streams first differ.
#[derive(Clone, Copy, Debug, PartialEq, Eq, Structural)]
pub struct SampleMismatch {
    pub frame: u64,
    pub channel: usize,
    pub expected: i16,
    pub actual: i16,
}

/// The running comparison of rendered samples with a reference.
#[derive(Clone, Copy, Debug, PartialEq, Eq, Structural)]
pub struct PcmComparison {
    /// Samples that differ.
    pub mismatches: u64,
    /// The largest absolute difference.
    pub max_abs_error: i32,
    /// The first sample that differs.
    pub first_mismatch: Option<SampleMismatch>,
}

/// The absolute difference of two samples.
pub open spec fn sample_error(expected: i16, actual: i16) -> int {
    let error = actual as int - expected as int;
    if error < 0 { -error } else { error }
}

/// The comparison after one more channel sample.
pub open spec fn compared_sample(c: PcmComparison, frame: u64, channel: usize, expected: i16, actual: i16) -> PcmComparison {
    let error = sample_error(expected, actual);
    PcmComparison {
        mismatches: if error != 0 { (c.mismatches + 1) as u64 } else { c.mismatches },
        max_abs_error: if error > c.max_abs_error { error as i32 } else { c.max_abs_error },
        first_mismatch: if error != 0 && c.first_mismatch is None {
            Some(SampleMismatch { frame, channel, expected, actual })
        } else {
            c.first_mismatch
        },
    }
}

impl PcmComparison {
    /// No sample compared yet.
    pub fn new() -> (comparison: Self)
        ensures
            comparison == (PcmComparison { mismatches: 0, max_abs_error: 0, first_mismatch: None }),
    {
        PcmComparison { mismatches: 0, max_abs_error: 0, first_mismatch: None }
    }

    /// Compares one channel sample.
    pub fn record_sample(&mut self, frame: u64, channel: usize, expected: i16, actual: i16)
        requires
            old(self).mismatches < u64::MAX,
        ensures
            *final(self) == compared_sample(*old(self), frame, channel, expected, actual),
    {
        let error = (actual as i32) - (expected as i32);
        let absolute = if error < 0 { -error } else { error };
        if absolute > self.max_abs_error {
            self.max_abs_error = absolute;
        }
        if error != 0 {
            self.mismatches = self.mismatches + 1;
            if self.first_mismatch.is_none() {
                self.first_mismatch = Some(SampleMismatch { frame, channel, expected, actual });
            }
        }
    }

    /// Compares one stereo frame, the left channel first.
    pub fn record(&mut self, frame: u64, expected: [i16; 2], actual: [i16; 2])
        requires
            old(self).mismatches <= u64::MAX - 2,
        ensures
            *final(self) == compared_sample(
                compared_sample(*old(self), frame, 0, expected@[0], actual@[0]),
                frame,
                1,
                expected@[1],
                actual@[1],
            ),
    {
        self.record_sample(frame, 0, expected[0], actual[0]);
        self.record_sample(frame, 1, expected[1], actual[1]);
    }
}

} // verus!
