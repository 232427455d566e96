use ffservice::error::{EngineFailure, ServiceError};
use ffservice::frame::VideoMetadata;
use ffservice::thumbnailer::{accepts_frame, get_duration, metadata_of, ThumbnailerResult, TimeBase};

fn base(numerator: i32, denominator: i32) -> TimeBase {
    TimeBase { numerator, denominator }
}

#[test]
fn three_hundred_ticks_at_a_thirtieth_are_ten_seconds() {
    assert_eq!(get_duration(base(1, 30), 300), Some(10));
}

#[test]
fn duration_is_rounded_down() {
    assert_eq!(get_duration(base(1, 30), 299), Some(9));
    assert_eq!(get_duration(base(1, 30), 29), Some(0));
    assert_eq!(get_duration(base(1001, 30000), 30000), Some(1001));
    assert_eq!(get_duration(base(1, 90000), 900_000 + 89_999), Some(10));
}

#[test]
fn duration_of_nothing_is_zero() {
    assert_eq!(get_duration(base(1, 30), 0), Some(0));
    assert_eq!(get_duration(base(0, 30), 300), Some(0));
}

#[test]
fn zero_denominator_has_no_duration() {
    assert_eq!(get_duration(base(1, 0), 300), None);
    assert_eq!(get_duration(base(0, 0), 0), None);
}

#[test]
fn negative_quotient_has_no_duration() {
    assert_eq!(get_duration(base(1, 30), -300), None);
    assert_eq!(get_duration(base(-1, 30), 300), None);
    assert_eq!(get_duration(base(1, -30), 1), None);
    assert_eq!(get_duration(base(1, 30), i64::MIN), None);
}

#[test]
fn signs_that_cancel_give_a_duration() {
    assert_eq!(get_duration(base(-1, -30), 300), Some(10));
    assert_eq!(get_duration(base(1, -30), -300), Some(10));
    assert_eq!(get_duration(base(-1, 30), -301), Some(10));
}

#[test]
fn duration_beyond_the_counter_is_refused() {
    assert_eq!(get_duration(base(i32::MAX, 1), i64::MAX), None);
    assert_eq!(get_duration(base(2, 1), i64::MAX), Some(2 * (i64::MAX as u64)));
    assert_eq!(get_duration(base(3, 1), i64::MAX), None);
    assert_eq!(get_duration(base(i32::MAX, i32::MAX), i64::MAX), Some(i64::MAX as u64));
}

#[test]
fn metadata_repeats_the_engine_report() {
    let report = ThumbnailerResult {
        thumbnail: vec![0; 12],
        width: 1280,
        height: 720,
        duration_seconds: 10,
    };
    assert_eq!(metadata_of(&report), VideoMetadata { width: 1280, height: 720, duration_seconds: 10 });
}

#[test]
fn metadata_keeps_the_low_bits_of_oversized_numbers() {
    let report = ThumbnailerResult {
        thumbnail: Vec::new(),
        width: u32::MAX,
        height: 1u32 << 31,
        duration_seconds: u64::MAX,
    };
    assert_eq!(
        metadata_of(&report),
        VideoMetadata { width: -1, height: i32::MIN, duration_seconds: -1 }
    );
}

#[test]
fn frame_is_accepted_once_decoded_at_or_after_the_target() {
    assert!(accepts_frame(true, Some(30), 30));
    assert!(accepts_frame(true, Some(31), 30));
    assert!(!accepts_frame(true, Some(29), 30));
    assert!(!accepts_frame(false, Some(31), 30));
}

#[test]
fn packet_without_time_stamp_counts_as_late_enough() {
    assert!(accepts_frame(true, None, i64::MAX));
    assert!(!accepts_frame(false, None, 0));
}

#[test]
fn unusable_media_is_the_request_s_fault() {
    assert_eq!(EngineFailure::StreamNotFound.status(), ServiceError::InvalidArgument);
    assert_eq!(EngineFailure::ThumbnailUnavailable.status(), ServiceError::InvalidArgument);
}

#[test]
fn unexpected_engine_failure_is_internal() {
    assert_eq!(EngineFailure::Unexpected.status(), ServiceError::Internal);
}

#[test]
fn wire_duration_is_the_duration_where_it_fits() {
    let metadata = VideoMetadata { width: 1, height: 1, duration_seconds: 10 };
    assert_eq!(metadata.wire_duration(), 10);
    let metadata = VideoMetadata { width: 1, height: 1, duration_seconds: i64::from(i32::MIN) };
    assert_eq!(metadata.wire_duration(), i32::MIN);
}

#[test]
fn wire_duration_keeps_the_low_bits_of_a_long_duration() {
    let metadata = VideoMetadata { width: 1, height: 1, duration_seconds: (1i64 << 32) + 7 };
    assert_eq!(metadata.wire_duration(), 7);
    let metadata = VideoMetadata { width: 1, height: 1, duration_seconds: i64::from(i32::MAX) + 1 };
    assert_eq!(metadata.wire_duration(), i32::MIN);
}
