use frame_stream::metadata::StreamMetadata;
use frame_stream::metadata::DEFAULT_FRAME_RATE_MILLI;
use frame_stream::metadata::FALLBACK_INTERVAL_MS;

#[test]
fn duration_of_ten_fps_fifty_frames_is_five_seconds() {
    let m = StreamMetadata::from_reported(320, 240, 10_000, 50);
    assert_eq!(m.duration_ms(), 5_000);
    assert_eq!(m.width(), 320);
    assert_eq!(m.height(), 240);
    assert_eq!(m.frame_rate_milli, 10_000);
    assert_eq!(m.frame_interval_ms(), 100);
}

#[test]
fn duration_is_frame_count_over_frame_rate() {
    // 29.97 fps carried as 29_970; 8_991 frames are exactly 300 seconds
    let m = StreamMetadata::from_reported(1920, 1080, 29_970, 8_991);
    assert_eq!(m.duration_ms(), 300_000);
}

#[test]
fn zero_reported_rate_falls_back_to_default() {
    let m = StreamMetadata::from_reported(64, 64, 0, 90);
    assert_eq!(m.frame_rate_milli, DEFAULT_FRAME_RATE_MILLI);
    assert_eq!(m.frame_interval_ms(), FALLBACK_INTERVAL_MS);
    // 90 frames at the default 30 fps
    assert_eq!(m.duration_ms(), 3_000);
}

#[test]
fn interval_is_thousand_over_rate() {
    let m = StreamMetadata::from_reported(8, 8, 25_000, 25);
    assert_eq!(m.frame_interval_ms(), 40);
    assert_eq!(m.duration_ms(), 1_000);
}

#[test]
fn zero_frames_give_zero_duration() {
    let m = StreamMetadata::from_reported(8, 8, 30_000, 0);
    assert_eq!(m.duration_ms(), 0);
}

#[test]
fn enormous_frame_count_saturates_duration() {
    let m = StreamMetadata::from_reported(8, 8, 1, u64::MAX);
    assert_eq!(m.duration_ms(), u64::MAX);
}
