use pmd_core::pmd::timing::{
    quarter_to_timer_b, timer_b_to_quarter, PmdTiming, SongPosition, Tempo, TimerClock, TimerStatus, OPNA_CLOCK_HZ,
};

#[test]
fn tempo_conversions_match_pmd_integer_arithmetic() {
    assert_eq!(timer_b_to_quarter(0), 17);
    assert_eq!(timer_b_to_quarter(200), 79);
    assert_eq!(timer_b_to_quarter(250), 255);
    assert_eq!(quarter_to_timer_b(17), 0);
    assert_eq!(quarter_to_timer_b(18), 12);
    assert_eq!(quarter_to_timer_b(79), 201);
    assert_eq!(quarter_to_timer_b(255), 239);
}

#[test]
fn tempo_absolute_and_relative_commands_keep_saved_values() {
    let mut tempo = Tempo::new();
    assert_eq!(tempo.timer_b(), 200);
    assert_eq!(tempo.quarter(), 79);

    tempo.adjust_timer_b(-5);
    assert_eq!(tempo.timer_b(), 195);
    tempo.adjust_timer_b(100);
    assert_eq!(tempo.timer_b(), 250);
    tempo.adjust_timer_b(-127);
    assert_eq!(tempo.timer_b(), 123);

    tempo.set_quarter(10);
    assert_eq!(tempo.quarter(), 18);
    tempo.adjust_quarter(-127);
    assert_eq!(tempo.quarter(), 18);
    tempo.adjust_quarter(127);
    assert_eq!(tempo.quarter(), 145);
    tempo.set_timer_b(255);
    assert_eq!(tempo.timer_b(), 250);
}

#[test]
fn timer_periods_and_next_events_match_ymfm_vectors() {
    let mut timers = TimerClock::new(OPNA_CLOCK_HZ, 6).expect("valid OPNA clock");
    timers.set_timer_a_value(0);
    timers.set_timer_b_value(200);
    timers.write_mode(0x3f, 0);
    assert_eq!(timers.period(0), 5_196_461_108_480);
    assert_eq!(timers.period(1), 4_546_903_469_920);
    assert_eq!(timers.next_event_microseconds(), 16_154);

    let status = timers.count(16_154);
    assert_eq!(status, TimerStatus { timer_a: false, timer_b: true });
    timers.write_mode(0x3f, 0);
    assert_eq!(timers.next_event_microseconds(), 2_308);
    let status = timers.count(2_308);
    assert_eq!(status, TimerStatus { timer_a: true, timer_b: false });
}

#[test]
fn mode_reset_disables_countdown_until_load_bits_return() {
    let mut timers = TimerClock::new(OPNA_CLOCK_HZ, 6).expect("valid OPNA clock");
    timers.set_timer_b_value(200);
    timers.write_mode(0x3f, 0);
    timers.write_mode(0x30, 0);
    assert_eq!(timers.next_event_microseconds(), 0);
    assert_eq!(timers.status(), TimerStatus::default());
    timers.write_mode(0x3f, 0);
    assert_eq!(timers.next_event_microseconds(), 16_154);
}

#[test]
fn timer_clock_rejects_a_zero_clock_and_unknown_prescalers() {
    assert!(TimerClock::new(0, 6).is_none());
    assert!(TimerClock::new(OPNA_CLOCK_HZ, 4).is_none());
    assert!(TimerClock::new(OPNA_CLOCK_HZ, 2).is_some());
    assert!(PmdTiming::new(0).is_none());
}

#[test]
fn timer_b_position_and_timer_a_delta_match_driver_order() {
    let mut timing = PmdTiming::new(OPNA_CLOCK_HZ).expect("valid OPNA clock");
    timing.start();
    assert_eq!(timing.position(), SongPosition::default());
    timing.timer_a_tick();
    timing.timer_a_tick();
    let first = timing.timer_b_tick();
    assert_eq!(first.position, SongPosition { measure: 0, tick: 1 });
    assert_eq!(first.timer_a_delta, 2);
    assert_eq!(first.tick, 1);
    assert_eq!(first.time_us, 16_154);
    let second = timing.timer_b_tick();
    assert_eq!(second.position, SongPosition { measure: 0, tick: 2 });
    assert_eq!(second.timer_a_delta, 1);
    assert_eq!(second.timer_a_count, 1);
    assert_eq!(second.timer_a_times[0], 18_462);
    assert_eq!(second.tick, 2);
    assert_eq!(second.time_us, 32_308);
    assert_eq!(timing.position().count(96), 2);
}

#[test]
fn timer_b_register_changes_apply_on_the_following_reload() {
    let mut timing = PmdTiming::new(OPNA_CLOCK_HZ).expect("valid OPNA clock");
    timing.start();

    assert_eq!(timing.timer_b_tick().time_us, 16_154);
    timing.timers.set_timer_b_value(197);
    assert_eq!(timing.timer_b_tick().time_us, 32_308);
    assert_eq!(timing.timer_b_tick().time_us, 49_328);
}

#[test]
fn song_position_wraps_into_the_next_measure() {
    let mut position = SongPosition { measure: 3, tick: 95 };
    position.advance(96);
    assert_eq!(position, SongPosition { measure: 4, tick: 0 });
    assert_eq!(position.count(96), 384);
}
