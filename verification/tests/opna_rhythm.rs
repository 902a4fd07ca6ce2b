use pmd_core::opna::rhythm::RhythmEngine;

fn complete_bank(engine: &mut RhythmEngine) {
    let samples = [1000, -2000, 3000, -4000];
    for index in 0..6 {
        assert!(engine.set_sample(index, 22_050, &samples, 44_100));
    }
}

#[test]
fn table_and_default_level_match_cpp_vectors() {
    let mut engine = RhythmEngine::new();
    complete_bank(&mut engine);
    engine.write_register(0x18, 0x1f | 0xc0);
    engine.write_register(0x10, 0x01);

    let mut output = [0; 8];
    engine.render(&mut output);
    assert_eq!(output, [999, 999, 999, 999, -2000, -2000, -2000, -2000]);
}

#[test]
fn pan_masks_match_cpp_vectors() {
    let expected = [(0, [0, 0, 0, 0]), (1, [0, 999, 0, 999]), (2, [999, 0, 999, 0]), (3, [999, 999, 999, 999])];

    for (pan, expected) in expected {
        let mut engine = RhythmEngine::new();
        complete_bank(&mut engine);
        engine.write_register(0x18, (pan << 6) | 0x1f);
        engine.write_register(0x10, 0x01);
        let mut output = [0; 4];
        engine.render(&mut output);
        assert_eq!(output, expected);
    }
}

#[test]
fn level_and_per_voice_volume_match_cpp_vectors() {
    let mut engine = RhythmEngine::new();
    complete_bank(&mut engine);
    engine.write_register(0x18, 0xc0 | 0x1e);
    engine.write_register(0x10, 0x01);
    let mut output = [0; 4];
    engine.render(&mut output);
    assert_eq!(output, [916, 916, 916, 916]);

    engine.set_volume(0, 3);
    engine.write_register(0x18, 0xc0 | 0x1f);
    engine.write_register(0x10, 0x01);
    output = [0; 4];
    engine.render(&mut output);
    assert_eq!(output, [1188, 1188, 1188, 1188]);
}

#[test]
fn fractional_step_and_retrigger_match_cpp_vectors() {
    let mut engine = RhythmEngine::new();
    complete_bank(&mut engine);
    engine.write_register(0x18, 0xc0 | 0x1f);
    engine.write_register(0x10, 0x01);

    let mut output = [0; 4];
    engine.render(&mut output);
    assert_eq!(output, [999, 999, 999, 999]);

    output = [0; 4];
    engine.render(&mut output);
    assert_eq!(output, [-2000, -2000, -2000, -2000]);

    engine.write_register(0x10, 0x01);
    output = [0; 4];
    engine.render(&mut output);
    assert_eq!(output, [999, 999, 999, 999]);
}

#[test]
fn incomplete_bank_and_adpcm_rom_are_silent() {
    let mut engine = RhythmEngine::new();
    assert!(engine.set_sample(0, 22_050, &[1000], 44_100));
    engine.write_register(0x18, 0xc0 | 0x1f);
    engine.write_register(0x10, 0x01);
    let mut output = [7, -9, 11, -13];
    engine.render(&mut output);
    assert_eq!(output, [7, -9, 11, -13]);

    complete_bank(&mut engine);
    engine.set_adpcm_rom_present(true);
    engine.write_register(0x10, 0x01);
    output = [7, -9, 11, -13];
    engine.render(&mut output);
    assert_eq!(output, [7, -9, 11, -13]);
}

#[test]
fn invalid_sample_configuration_clears_the_bank() {
    let mut engine = RhythmEngine::new();
    complete_bank(&mut engine);
    assert!(!engine.set_sample(0, 22_050, &[0; 0x100000], 44_100));
    engine.write_register(0x10, 0x01);
    let mut output = [0; 2];
    engine.render(&mut output);
    assert_eq!(output, [0, 0]);
}

#[test]
fn voices_stop_at_the_end_of_their_sample_and_report_peaks() {
    let mut engine = RhythmEngine::new();
    complete_bank(&mut engine);
    engine.write_register(0x18, 0xc0 | 0x1f);
    engine.write_register(0x10, 0x01);
    let mut output = [0; 20];
    engine.render(&mut output);
    assert_eq!(&output[16..], &[0, 0, 0, 0]);
    assert_eq!(output[12], -4000);
    let peaks = engine.take_peaks();
    assert_eq!(peaks[0], 4000);
    assert_eq!(&peaks[1..], &[0, 0, 0, 0, 0]);
    assert_eq!(engine.take_peaks(), [0; 6]);
    engine.write_register(0x10, 0x81);
    let mut silent = [0; 4];
    engine.render(&mut silent);
    assert_eq!(silent, [0; 4]);
}
