use batch_upload::compression::should_compress_for_upload;
use batch_upload::duration::{Duration, MAX_NANOS};
use batch_upload::timeout::direct_batch_timeout_for_audio;

fn minutes(minutes: u64) -> Duration {
    Duration::from_secs(minutes * 60)
}

#[test]
fn unknown_audio_waits_the_least() {
    assert_eq!(direct_batch_timeout_for_audio(None), minutes(15));
}

#[test]
fn timeout_is_twice_the_audio_and_a_buffer() {
    assert_eq!(direct_batch_timeout_for_audio(Some(minutes(60))), minutes(125));
    assert_eq!(
        direct_batch_timeout_for_audio(Some(Duration::from_millis(1_800_500))),
        Duration::from_millis(3_901_000)
    );
}

#[test]
fn timeout_stays_between_floor_and_ceiling() {
    assert_eq!(direct_batch_timeout_for_audio(Some(minutes(0))), minutes(15));
    assert_eq!(direct_batch_timeout_for_audio(Some(minutes(5))), minutes(15));
    assert_eq!(direct_batch_timeout_for_audio(Some(minutes(6))), minutes(17));
    assert_eq!(direct_batch_timeout_for_audio(Some(minutes(177))), minutes(359));
    assert_eq!(direct_batch_timeout_for_audio(Some(minutes(178))), minutes(360));
    assert_eq!(
        direct_batch_timeout_for_audio(Some(Duration::from_secs(u64::MAX))),
        minutes(360)
    );
}

#[test]
fn longer_audio_waits_no_less() {
    let mut last = direct_batch_timeout_for_audio(None).as_nanos();
    for m in 0..400 {
        let timeout = direct_batch_timeout_for_audio(Some(minutes(m))).as_nanos();
        assert!(timeout >= last);
        last = timeout;
    }
}

#[test]
fn duration_parts() {
    let d = Duration::from_millis(12_345);
    assert_eq!(d.as_secs(), 12);
    assert_eq!(d.subsec_nanos(), 345_000_000);
    assert_eq!(d.as_nanos(), 12_345_000_000);
    assert_eq!(Duration::from_nanos_saturating(12_345_000_000), d);
}

#[test]
fn duration_arithmetic_saturates() {
    let longest = Duration::from_nanos_saturating(u128::MAX);
    assert_eq!(longest.as_nanos(), MAX_NANOS);
    assert_eq!(longest.as_secs(), u64::MAX);
    assert_eq!(longest.subsec_nanos(), 999_999_999);
    assert_eq!(longest.saturating_mul(2), longest);
    assert_eq!(longest.saturating_add(Duration::from_secs(1)), longest);
    assert_eq!(
        Duration::from_secs(1).saturating_sub(Duration::from_secs(2)),
        Duration::from_secs(0)
    );
    assert_eq!(
        Duration::from_millis(1_500).saturating_mul(3),
        Duration::from_millis(4_500)
    );
    assert_eq!(Duration::from_secs(1).max(Duration::from_secs(2)), Duration::from_secs(2));
    assert_eq!(Duration::from_secs(1).min(Duration::from_secs(2)), Duration::from_secs(1));
}

const MIB: u64 = 1024 * 1024;

#[test]
fn recordings_for_playback_are_compressed() {
    // 64 kbps for each channel, ten minutes.
    let ten_minutes = Some(minutes(10));
    assert!(should_compress_for_upload(4_800_000, ten_minutes, Some(1)));
    assert!(should_compress_for_upload(9_600_000, ten_minutes, Some(2)));
}

#[test]
fn small_recordings_are_not_compressed() {
    assert!(!should_compress_for_upload(MIB - 1, Some(Duration::from_secs(1)), Some(1)));
    assert!(should_compress_for_upload(MIB, Some(Duration::from_secs(1)), Some(1)));
}

#[test]
fn recordings_of_unknown_length_or_layout_are_not_compressed() {
    let hour = Some(minutes(60));
    assert!(!should_compress_for_upload(100 * MIB, None, Some(1)));
    assert!(!should_compress_for_upload(100 * MIB, Some(Duration::from_secs(0)), Some(1)));
    assert!(!should_compress_for_upload(100 * MIB, hour, None));
    assert!(!should_compress_for_upload(100 * MIB, hour, Some(0)));
    assert!(!should_compress_for_upload(1000 * MIB, hour, Some(3)));
    assert!(should_compress_for_upload(100 * MIB, hour, Some(2)));
}

#[test]
fn lean_recordings_are_not_compressed() {
    // 30 kbps is five quarters of the mono target: 3750 bytes each second.
    let thousand_seconds = Some(Duration::from_secs(1000));
    assert!(!should_compress_for_upload(3_750_000, thousand_seconds, Some(1)));
    assert!(should_compress_for_upload(3_750_001, thousand_seconds, Some(1)));
    assert!(!should_compress_for_upload(7_500_000, thousand_seconds, Some(2)));
    assert!(should_compress_for_upload(7_500_001, thousand_seconds, Some(2)));
}

#[test]
fn shorter_or_larger_recordings_are_worth_more() {
    assert!(!should_compress_for_upload(3_750_000, Some(Duration::from_secs(1000)), Some(1)));
    assert!(should_compress_for_upload(3_750_000, Some(Duration::from_secs(999)), Some(1)));
    assert!(should_compress_for_upload(u64::MAX, Some(Duration::from_secs(1000)), Some(1)));
}
