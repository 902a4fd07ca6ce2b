use std::collections::VecDeque;
use pmd_core::opna::chip::Ym2608;
use pmd_core::opna::renderer::{ChipRenderer, ChipScheduler, StereoSource, SOURCE_RATE};
use pmd_core::opna::resampler::{scale_fm_and_clip, scale_ssg, FrameSource, OpnaScheduler, SsgResampler, FIXED_TIME_ONE};

fn configure_carrier(chip: &mut Ym2608) {
    chip.write(0xa4, 0x01);
    chip.write(0xa0, 0x80);
    chip.write(0xb0, 0x07);
    chip.write(0xb4, 0xc0);
    for base in [0x00, 0x04, 0x08, 0x0c] {
        chip.write(0x30 + base, 0x01);
        chip.write(0x40 + base, 0x00);
        chip.write(0x50 + base, 0x1f);
        chip.write(0x60 + base, 0x00);
        chip.write(0x70 + base, 0x00);
        chip.write(0x80 + base, 0x0f);
    }
    chip.write(0x28, 0xf0);
}

fn configure_renderer_carrier(renderer: &mut ChipRenderer) {
    renderer.write(0xa4, 0x01);
    renderer.write(0xa0, 0x80);
    renderer.write(0xb0, 0x07);
    renderer.write(0xb4, 0xc0);
    for base in [0x00, 0x04, 0x08, 0x0c] {
        renderer.write(0x30 + base, 0x01);
        renderer.write(0x40 + base, 0x00);
        renderer.write(0x50 + base, 0x1f);
        renderer.write(0x60 + base, 0x00);
        renderer.write(0x70 + base, 0x00);
        renderer.write(0x80 + base, 0x0f);
    }
    renderer.write(0x28, 0xf0);
}

#[test]
fn internal_output_matches_the_pinned_ymfm_synthetic_vector() {
    let mut chip = Ym2608::new(8_000_000);
    chip.set_fm_volume(32768);
    configure_carrier(&mut chip);
    let mut samples = [[0; 3]; 8];
    for frame in 0..(samples.len() * 18) {
        let sample = chip.generate_internal();
        if frame % 18 == 0 {
            samples[frame / 18] = sample;
        }
    }
    assert_eq!(
        samples,
        [[48, 48, 0], [48, 48, 0], [48, 48, 0], [48, 48, 0], [48, 48, 0], [148, 148, 0], [148, 148, 0], [148, 148, 0]]
    );
}

#[test]
fn fm_channel_mute_suppresses_output_without_rejecting_the_channel() {
    let mut chip = Ym2608::new(8_000_000);
    chip.set_fm_volume(32768);
    configure_carrier(&mut chip);
    assert!(chip.set_channel_mute(0, true));
    let mut sample = [0; 3];
    for _ in 0..18 {
        sample = chip.generate_internal();
    }
    assert_eq!(sample[0], 0);
    assert_eq!(sample[1], 0);
    assert!(chip.set_channel_mute(0, false));
}

#[test]
fn ssg_mixed_output_matches_the_pinned_ymfm_vector() {
    let mut chip = Ym2608::new(8_000_000);
    chip.set_fm_volume(0);
    chip.write(0x07, 0x08);
    chip.write(0x08, 0x0f);
    chip.write(0x00, 2);
    let mut samples = [[0; 3]; 12];
    for sample in &mut samples {
        *sample = chip.generate_internal();
    }
    assert_eq!(
        samples,
        [
            [0, 0, 0],
            [0, 0, 0],
            [0, 0, 0],
            [0, 0, 0],
            [0, 0, 10921],
            [0, 0, 10921],
            [0, 0, 10921],
            [0, 0, 10921],
            [0, 0, 10921],
            [0, 0, 10921],
            [0, 0, 10921],
            [0, 0, 10921],
        ]
    );
}

#[test]
fn chip_channel_mute_refuses_unknown_channels_and_prescale_writes_change_the_rate_plan() {
    let mut chip = Ym2608::new(8_000_000);
    assert!(!chip.set_channel_mute(11, true));
    assert_eq!(chip.internal_sample_rate(), 1_000_000);
    chip.write(0x2e, 0);
    assert_eq!((chip.prescale, chip.fm_samples_per_output), (3, 9));
    chip.write(0x2e, 0);
    assert_eq!(chip.prescale, 3);
    chip.write(0x2f, 0);
    assert_eq!((chip.prescale, chip.fm_samples_per_output), (2, 6));
    chip.write(0x2d, 0);
    assert_eq!((chip.prescale, chip.fm_samples_per_output), (6, 18));
    chip.set_fidelity_min();
    assert_eq!(chip.internal_sample_rate(), 8_000_000 / 48);
    assert_eq!(chip.fm_samples_per_output, 3);
}

struct Sequence {
    index: i32,
}

impl FrameSource for Sequence {
    fn next_frame(&mut self) -> [i32; 3] {
        let value = [100 + 7 * self.index, 200 + 11 * self.index, 500 + 13 * self.index];
        self.index += 1;
        value
    }
}

struct Constant;

impl FrameSource for Constant {
    fn next_frame(&mut self) -> [i32; 3] {
        [1, 2, 3]
    }
}

#[test]
fn ssg_ratios_match_cpp_resampler_vectors() {
    let cases = [
        (4, 1, vec![533, 533, 533, 533, 554, 554, 554, 554]),
        (2, 1, vec![533, 533, 554, 554, 574, 574, 595, 595]),
        (1, 1, vec![533, 554, 574, 595, 616]),
        (4, 3, vec![533, 547, 560, 574, 595, 609, 622, 636]),
        (2, 3, vec![540, 567, 602, 629, 664, 691, 726, 753]),
        (1, 3, vec![554, 616, 678, 740, 802]),
        (2, 9, vec![570, 661, 756, 847, 942]),
        (1, 6, vec![585, 709, 833, 957]),
    ];

    for (output_samples, source_samples, expected) in cases {
        let mut resampler = SsgResampler::new();
        assert!(resampler.configure(output_samples, source_samples));
        let mut output = vec![0; expected.len()];
        resampler.render(&mut output, &mut Sequence { index: 0 });
        assert_eq!(output, expected);
    }
}

#[test]
fn nop_resampler_only_advances_the_sample_index() {
    let mut resampler = SsgResampler::new();
    let mut output = [17, -23];
    resampler.render(&mut output, &mut Constant);
    assert_eq!(output, [17, -23]);
    assert_eq!(resampler.sample_index(), 2);
}

#[test]
fn resampler_refuses_unknown_ratios() {
    let mut resampler = SsgResampler::new();
    assert!(!resampler.configure(3, 1));
    assert!(resampler.configure(0, 0));
}

struct Counting {
    source: i32,
}

impl FrameSource for Counting {
    fn next_frame(&mut self) -> [i32; 3] {
        let value = [10 + self.source * 10, 20 + self.source * 20, 1 + self.source];
        self.source += 1;
        value
    }
}

#[test]
fn opna_source_scheduler_matches_fixed_time_vectors() {
    let mut scheduler = OpnaScheduler::new(4, 6).expect("valid rates");
    let mut output = [[0; 2]; 6];
    scheduler.render(&mut output, &mut Counting { source: 0 });
    assert_eq!(output, [[11, 21], [11, 21], [22, 42], [22, 42], [33, 63], [44, 84]]);
    assert_eq!(scheduler.generated_samples(), 4);
}

#[test]
fn fm_scaling_clips_but_ssg_scaling_does_not() {
    let mut fm = [20_000, -20_000];
    scale_fm_and_clip(&mut fm, 65_536);
    assert_eq!(fm, [32_767, -32_768]);

    let mut ssg = 12_345;
    scale_ssg(&mut ssg, 32_768);
    assert_eq!(ssg, 6_172);
}

#[test]
fn scaling_rounds_toward_zero() {
    let mut ssg = -3;
    scale_ssg(&mut ssg, 32_768);
    assert_eq!(ssg, -1);
    let mut fm = [-3, 3];
    scale_fm_and_clip(&mut fm, 16_384);
    assert_eq!(fm, [-1, 1]);
}

struct Stereo {
    source: i32,
}

impl StereoSource for Stereo {
    fn next_stereo(&mut self) -> [i32; 2] {
        self.source += 1;
        [self.source * 10, self.source * 20]
    }
}

#[test]
fn scheduler_matches_floor_boundary_and_last_sample_semantics() {
    let mut scheduler = ChipScheduler::new(4, 6).expect("valid rates");
    let mut output = [[0; 2]; 6];
    scheduler.render(&mut output, &mut Stereo { source: 0 });
    assert_eq!(output, [[10, 20], [10, 20], [20, 40], [20, 40], [30, 60], [40, 80]]);
}

#[test]
fn renderer_uses_the_reference_55466_hz_source_path() {
    let renderer = ChipRenderer::new(8_000_000, 44_100, true).expect("valid renderer");
    assert_eq!(renderer.target_rate(), 44_100);
    assert!(renderer.interpolation());
    assert_eq!(SOURCE_RATE, 55_466);
}

#[test]
fn renderer_uses_target_rate_for_the_direct_path() {
    let renderer = ChipRenderer::new(8_000_000, 44_100, false).expect("valid renderer");
    assert_eq!(renderer.scheduler.output_step, FIXED_TIME_ONE / 44_100);
}

#[test]
fn direct_rate_change_preserves_scheduler_position() {
    let mut renderer = ChipRenderer::new(8_000_000, 44_100, false).expect("valid renderer");
    let mut output = [[0; 2]; 3];
    renderer.render(&mut output);
    let source_position = renderer.scheduler.source_position;
    let output_position = renderer.scheduler.output_position;

    assert!(renderer.set_target_rate(55_467));
    assert_eq!(renderer.target_rate(), 55_467);
    assert_eq!(renderer.scheduler.source_position, source_position);
    assert_eq!(renderer.scheduler.output_position, output_position);
    assert_eq!(renderer.scheduler.output_step, FIXED_TIME_ONE / 55_467);
}

#[test]
fn renderer_rejects_zero_rates() {
    assert!(ChipRenderer::new(0, 44_100, false).is_none());
    assert!(ChipRenderer::new(8_000_000, 0, false).is_none());
    assert!(ChipRenderer::new(8_000_000, 0, true).is_none());
}

#[test]
fn source_rate_frames_match_the_pinned_ymfm_scheduler_vector() {
    let mut renderer = ChipRenderer::new(8_000_000, SOURCE_RATE, false).expect("valid renderer");
    renderer.set_fm_volume(32768);
    configure_renderer_carrier(&mut renderer);
    let mut output = [[0; 2]; 12];
    renderer.render(&mut output);
    assert_eq!(
        output,
        [
            [48, 48],
            [48, 48],
            [48, 48],
            [48, 48],
            [48, 48],
            [148, 148],
            [148, 148],
            [148, 148],
            [148, 148],
            [148, 148],
            [248, 248],
            [248, 248],
        ]
    );
}

#[test]
fn prefilled_frames_come_first_and_are_consumed() {
    let mut renderer = ChipRenderer::new(8_000_000, SOURCE_RATE, false).expect("valid renderer");
    let mut buffered = VecDeque::from(vec![[5, 6], [7, 8], [9, 10]]);
    let mut output = [[0; 2]; 2];
    renderer.render_with_prefill(&mut output, &mut buffered);
    assert_eq!(output, [[5, 6], [7, 8]]);
    assert_eq!(buffered, VecDeque::from(vec![[9, 10]]));
}
