use pmd_core::opna::pcm::{clamp_i16, read_i16, PcmComparison, SampleMismatch};

#[test]
fn clamps_samples_to_sixteen_bits() {
    assert_eq!(clamp_i16(40_000), 32_767);
    assert_eq!(clamp_i16(-40_000), -32_768);
    assert_eq!(clamp_i16(-5), -5);
}

#[test]
fn reads_interleaved_little_endian_samples() {
    let bytes = [0x01, 0x00, 0xff, 0xff, 0x00, 0x80, 0x34, 0x12];
    assert_eq!(read_i16(&bytes, 0, 0), 1);
    assert_eq!(read_i16(&bytes, 0, 1), -1);
    assert_eq!(read_i16(&bytes, 1, 0), -32_768);
    assert_eq!(read_i16(&bytes, 1, 1), 0x1234);
}

#[test]
fn comparison_counts_mismatches_and_keeps_the_first() {
    let mut comparison = PcmComparison::new();
    comparison.record(0, [1, 2], [1, 2]);
    assert_eq!(comparison, PcmComparison { mismatches: 0, max_abs_error: 0, first_mismatch: None });
    comparison.record(1, [10, 20], [10, 25]);
    comparison.record(2, [-100, 0], [100, 0]);
    assert_eq!(comparison.mismatches, 2);
    assert_eq!(comparison.max_abs_error, 200);
    assert_eq!(
        comparison.first_mismatch,
        Some(SampleMismatch { frame: 1, channel: 1, expected: 20, actual: 25 })
    );
}
