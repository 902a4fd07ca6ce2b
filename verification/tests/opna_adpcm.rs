use pmd_core::opna::adpcm::{
    clamp_i32, AdpcmAEngine, AdpcmBEngine, ADPCM_B_STATUS_BRDY, ADPCM_B_STATUS_EOS, ADPCM_B_STATUS_PLAYING,
};

#[test]
fn adpcm_a_decoding_pan_and_inclusive_end_match_cpp_vectors() {
    let mut engine = AdpcmAEngine::new();
    engine.set_memory(&[0x12, 0x34, 0x56, 0x78, 0x9a, 0xbc]);
    engine.write(0x01, 0x3f);
    engine.write(0x08, 0xdf);
    engine.set_start_end(0, 0, 2);
    engine.write(0x00, 0x01);

    let expected = [[44, 44], [120, 120], [224, 224], [360, 360], [552, 552], [928, 928], [0, 0]];
    for expected in expected {
        engine.clock(1);
        let mut output = [0; 2];
        engine.output(&mut output, 1);
        assert_eq!(output, expected);
    }
}

#[test]
fn adpcm_a_pan_end_and_silent_total_level_match_cpp_vectors() {
    let mut engine = AdpcmAEngine::new();
    engine.set_memory(&[0x12, 0x34]);
    engine.write(0x01, 0x3f);
    engine.write(0x08, 0x5f);
    engine.set_start_end(0, 0, 0);
    engine.write(0x00, 0x01);

    for expected in [[0, 44], [0, 120], [0, 0]] {
        engine.clock(1);
        let mut output = [0; 2];
        engine.output(&mut output, 1);
        assert_eq!(output, expected);
    }

    engine.reset();
    engine.set_memory(&[0x12]);
    engine.write(0x01, 0x00);
    engine.write(0x08, 0xdf);
    engine.set_start_end(0, 0, 0);
    engine.write(0x00, 0x01);
    engine.clock(1);
    let mut output = [0; 2];
    engine.output(&mut output, 1);
    assert_eq!(output, [0, 0]);
}

#[test]
fn adpcm_a_register_control_and_empty_memory_are_safe() {
    let mut engine = AdpcmAEngine::new();
    engine.set_start_end(0, 0, 0);
    engine.write(0x00, 0x81);
    assert!(engine.dump_register());
    assert_eq!(engine.dump_mask(), 1);
    engine.clock(1);
    let mut output = [0; 2];
    engine.output(&mut output, 1);
    assert_eq!(output, [0, 0]);

    engine.write(0x00, 0x01);
    engine.clock(1);
    engine.output(&mut output, 1);
    assert_eq!(output, [0, 0]);
}

fn configure_adpcm_b(engine: &mut AdpcmBEngine, control: u8, level: u8, pan: u8) {
    engine.write(0x01, pan | 0x03);
    engine.write(0x02, 0x00);
    engine.write(0x03, 0x00);
    engine.write(0x04, 0x00);
    engine.write(0x05, 0x00);
    engine.write(0x09, 0xff);
    engine.write(0x0a, 0xff);
    engine.write(0x0b, level);
    engine.write(0x00, control);
}

#[test]
fn signed_nibbles_and_wrapping_or_clamped_accumulators_match_cpp_vectors() {
    let mut adpcm_a = AdpcmAEngine::new();
    adpcm_a.set_memory(&[0x8f, 0x71, 0xf1]);
    adpcm_a.write(0x01, 0x3f);
    adpcm_a.write(0x08, 0xdf);
    adpcm_a.set_start_end(0, 0, 2);
    adpcm_a.write(0x00, 0x01);
    let expected_a = [[-16, -16], [-240, -240], [276, 276], [524, 524], [-600, -600]];
    for expected in expected_a {
        adpcm_a.clock(1);
        let mut output = [0; 2];
        adpcm_a.output(&mut output, 1);
        assert_eq!(output, expected);
    }

    let mut adpcm_b = AdpcmBEngine::new();
    adpcm_b.set_memory(&[0x8f, 0x7f, 0xf1, 0x08]);
    configure_adpcm_b(&mut adpcm_b, 0xa0, 0xff, 0xc0);
    let expected_b = [[0, 0], [-8, -8], [-127, -127], [156, 156], [-519, -519], [-2135, -2135]];
    for expected in expected_b {
        adpcm_b.clock();
        let mut output = [0; 2];
        adpcm_b.output(&mut output, 1);
        assert_eq!(output, expected);
    }
}

#[test]
fn adpcm_b_interpolation_pan_and_status_match_cpp_vectors() {
    let mut engine = AdpcmBEngine::new();
    engine.set_memory(&(0..32).map(|value| 0x10 + value).collect::<Vec<_>>());
    configure_adpcm_b(&mut engine, 0xa0, 0xff, 0xc0);

    let expected = [
        [0, 0],
        [22, 22],
        [30, 30],
        [53, 53],
        [77, 77],
        [100, 100],
        [139, 139],
        [163, 163],
        [218, 218],
        [242, 242],
        [312, 312],
        [341, 341],
    ];
    for expected in expected {
        engine.clock();
        let mut output = [0; 2];
        engine.output(&mut output, 1);
        assert_eq!(output, expected);
        assert_eq!(engine.status(), (ADPCM_B_STATUS_BRDY | ADPCM_B_STATUS_PLAYING) as u8);
    }
}

#[test]
fn adpcm_b_pan_and_level_match_cpp_vectors() {
    let mut engine = AdpcmBEngine::new();
    engine.set_memory(&(0..32).map(|value| 0x10 + value).collect::<Vec<_>>());
    configure_adpcm_b(&mut engine, 0xa0, 0x80, 0x80);

    for expected in [[0, 0], [11, 0], [15, 0], [27, 0], [38, 0], [50, 0]] {
        engine.clock();
        let mut output = [0; 2];
        engine.output(&mut output, 1);
        assert_eq!(output, expected);
    }
}

#[test]
fn adpcm_b_repeat_and_missing_memory_keep_the_reference_state_machine() {
    let mut engine = AdpcmBEngine::new();
    engine.set_memory(&(0..32).map(|value| 0x10 + value).collect::<Vec<_>>());
    configure_adpcm_b(&mut engine, 0xb0, 0xff, 0xc0);
    for _ in 0..130 {
        engine.clock();
    }
    assert_eq!(engine.status(), (ADPCM_B_STATUS_BRDY | ADPCM_B_STATUS_PLAYING) as u8);

    let mut output = [0; 2];
    engine.clock();
    engine.output(&mut output, 1);
    assert_eq!(output, [-119, -119]);

    let mut empty = AdpcmBEngine::new();
    configure_adpcm_b(&mut empty, 0xa0, 0xff, 0xc0);
    for _ in 0..4 {
        empty.clock();
    }
    output = [0; 2];
    empty.output(&mut output, 1);

    assert_eq!(output, [21, 21]);
}

#[test]
fn adpcm_b_cpu_mode_read_and_write_are_in_memory() {
    let mut engine = AdpcmBEngine::new();

    engine.write(0x01, 0xc1);
    engine.write(0x02, 0x00);
    engine.write(0x03, 0x00);
    engine.write(0x04, 0x00);
    engine.write(0x05, 0x00);
    engine.write(0x00, 0x20);
    assert_eq!(engine.read(0x08), 0);
    assert_eq!(engine.read(0x08), 0);
    engine.write(0x00, 0x40);
    engine.write(0x08, 0xa5);
    engine.write(0x08, 0x5a);

    engine.write(0x00, 0x00);
    engine.clock();
    assert_eq!(engine.status() & ADPCM_B_STATUS_PLAYING as u8, 0);
}

#[test]
fn adpcm_b_cpu_recording_grows_memory_and_reads_it_back() {
    let mut engine = AdpcmBEngine::new();
    engine.write(0x01, 0x01);
    engine.write(0x04, 0x01);
    engine.write(0x05, 0x00);
    engine.write(0x0c, 0xff);
    engine.write(0x0d, 0xff);
    engine.write(0x00, 0x60);
    engine.write(0x08, 0xa5);
    engine.write(0x08, 0x5a);
    assert_eq!(engine.memory, vec![0xa5, 0x5a]);
    engine.write(0x00, 0x20);
    assert_eq!(engine.read(0x08), 0);
    assert_eq!(engine.read(0x08), 0);
    assert_eq!(engine.read(0x08), 0xa5);
    assert_eq!(engine.read(0x08), 0x5a);
    assert_eq!(engine.read(0x08), 0);
    assert_eq!(engine.read(0x07), 0);
}

#[test]
fn adpcm_b_stops_at_the_end_without_repeat() {
    let mut engine = AdpcmBEngine::new();
    engine.set_memory(&[0x11; 64]);
    configure_adpcm_b(&mut engine, 0xa0, 0xff, 0xc0);
    let mut clocks = 0;
    while engine.status() & ADPCM_B_STATUS_PLAYING as u8 != 0 && clocks < 1000 {
        engine.clock();
        clocks += 1;
    }
    assert!(clocks < 1000);
    assert_eq!(engine.status(), (ADPCM_B_STATUS_EOS | ADPCM_B_STATUS_BRDY) as u8);
}

#[test]
fn clamp_limits_to_the_inclusive_range() {
    assert_eq!(clamp_i32(-5, 0, 48), 0);
    assert_eq!(clamp_i32(50, 0, 48), 48);
    assert_eq!(clamp_i32(7, 0, 48), 7);
}
