use sigchain::clock::elapsed_seconds;
use std::time::{Duration, UNIX_EPOCH};

#[test]
fn elapsed_time_is_counted_in_whole_seconds() {
    assert_eq!(elapsed_seconds(Ok(Duration::ZERO)), Some(0));
    assert_eq!(elapsed_seconds(Ok(Duration::from_millis(999))), Some(0));
    assert_eq!(elapsed_seconds(Ok(Duration::from_millis(5999))), Some(5));
    assert_eq!(elapsed_seconds(Ok(Duration::from_secs(1700000000))), Some(1700000000));
    assert_eq!(elapsed_seconds(Ok(Duration::new(u64::MAX, 999_999_999))), Some(u64::MAX));
}

#[test]
fn a_clock_set_before_the_epoch_gives_no_time() {
    let later = UNIX_EPOCH + Duration::from_secs(1);
    let failure = UNIX_EPOCH.duration_since(later).unwrap_err();
    assert_eq!(elapsed_seconds(Err(failure)), None);
}
