use std::time::{SystemTime, UNIX_EPOCH};

use lucky_wol_agent::clock::{signed_count, unix_now, unix_now_ms, Moment};

fn millis() -> i64 {
    SystemTime::now().duration_since(UNIX_EPOCH).unwrap().as_millis() as i64
}

#[test]
fn counts_wrap_into_64_bits() {
    assert_eq!(signed_count(0), 0);
    assert_eq!(signed_count(i64::MAX as u128), i64::MAX);
    assert_eq!(signed_count(i64::MAX as u128 + 1), i64::MIN);
    assert_eq!(signed_count(u64::MAX as u128), -1);
    assert_eq!(signed_count(u64::MAX as u128 + 1), 0);
    assert_eq!(signed_count(u128::MAX), u128::MAX as i64);
    assert_eq!(signed_count(u64::MAX as u128 + 43), 42);
}

#[test]
fn the_clock_counts_from_the_epoch() {
    let before = millis();
    let seconds = unix_now();
    let milliseconds = unix_now_ms();
    let after = millis();
    assert!(before / 1000 <= seconds && seconds <= after / 1000);
    assert!(before <= milliseconds && milliseconds <= after);
}

#[test]
fn a_moment_has_one_reading() {
    let before = millis();
    let now = Moment::now();
    let after = millis();
    assert!(before <= now.unix_millis && now.unix_millis <= after);
    assert_eq!(now.unix_seconds, now.unix_millis / 1000);
}

#[test]
fn a_moment_is_written_as_date_and_time() {
    let text = Moment::now().timestamp;
    let shape: String = text.chars().map(|c| if c.is_ascii_digit() { '0' } else { c }).collect();
    assert_eq!(shape, "0000-00-00 00:00:00");
}
