use pmd_core::jis::{jis0201_codepoint, jis0208_codepoint, CodepointError};
use pmd_core::opna::schedule::{clears_wait_queue, schedule_writes, RegisterWait};
use pmd_core::opna::trace::RegisterWrite;

#[test]
fn maps_jis0201_ascii_and_halfwidth_katakana() {
    assert_eq!(jis0201_codepoint(0x41), Some('A' as u32));
    assert_eq!(jis0201_codepoint(0xa1), Some('｡' as u32));
    assert_eq!(jis0201_codepoint(0xdf), Some('ﾟ' as u32));
    assert_eq!(jis0201_codepoint(0x1f), None);
}

#[test]
fn maps_known_jis0208_codepoints_to_unicode() {
    assert_eq!(jis0208_codepoint(0x456c).unwrap(), Some('東' as u32));
    assert_eq!(jis0208_codepoint(0x3278).unwrap(), Some('怪' as u32));
    assert_eq!(jis0208_codepoint(0x2121).unwrap(), Some('\u{3000}' as u32));
}

#[test]
fn jis0208_codes_outside_the_table_have_no_codepoint() {
    assert_eq!(jis0208_codepoint(0x2020), Ok(None));
    assert_eq!(jis0208_codepoint(0x7f21), Ok(None));
    let _ = CodepointError::Undecodable;
}

fn write(time_us: u64, tick: u64, address: u16, value: u8) -> RegisterWrite {
    RegisterWrite { time_us, tick, address, value }
}

#[test]
fn schedule_uses_absolute_timestamp_floor() {
    let writes = [write(0, 0, 0, 0), write(18_462, 1, 1, 1), write(32_110, 2, 2, 2)];

    let scheduled = schedule_writes(&writes, 44_100).expect("timestamps are valid");
    assert_eq!(scheduled.iter().map(|event| event.frame).collect::<Vec<_>>(), [0, 814, 1_416]);
}

#[test]
fn schedule_rejects_timestamps_that_go_back_or_overflow() {
    let writes = [write(10, 0, 0, 0), write(5, 1, 1, 1)];
    assert_eq!(schedule_writes(&writes, 44_100), Err("trace timestamps are not monotonic".to_owned()));
    let writes = [write(u64::MAX / 2, 0, 0, 0)];
    assert_eq!(schedule_writes(&writes, 44_100), Err("trace timestamp overflows frame conversion".to_owned()));
    let writes = [write(7, 0, 0, 0), write(7, 0, 1, 1)];
    let scheduled = schedule_writes(&writes, 1_000_000).expect("equal times are fine");
    assert_eq!(scheduled.iter().map(|event| event.frame).collect::<Vec<_>>(), [7, 7]);
}

#[test]
fn register_wait_carries_thousandths_of_a_frame() {
    let mut wait = RegisterWait::new(44_100, 0);
    assert_eq!(wait.frames_before_write(), 1);
    assert_eq!(wait.frames_before_write(), 1);
    assert_eq!(wait.frames_before_write(), 1);
    assert_eq!(wait.frames_before_write(), 2);
    assert_eq!(wait.fractional, 292);
}

#[test]
fn only_enabling_interrupts_clears_the_wait_queue() {
    assert!(clears_wait_queue(write(0, 0, 0x29, 0x83)));
    assert!(!clears_wait_queue(write(0, 0, 0x29, 0x80)));
    assert!(!clears_wait_queue(write(0, 0, 0x28, 0x83)));
}
