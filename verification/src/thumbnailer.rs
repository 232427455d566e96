//! Plain values exchanged with the media engine, and the arithmetic on them.

use vstd::prelude::*;
use crate::frame::VideoMetadata;

verus! {

/// What the media engine reports of a staged file: a scaled still frame as a
/// raw raster, the source dimensions, and the duration in whole seconds.
#[derive(Clone, Debug)]
pub struct ThumbnailerResult {
    pub thumbnail: Vec<u8>,
    pub width: u32,
    pub height: u32,
    pub duration_seconds: u64,
}

/// The unit of a stream's time stamps, as a fraction of a second.
#[derive(Clone, Copy, Debug, PartialEq, Eq, Structural)]
pub struct TimeBase {
    pub numerator: i32,
    pub denominator: i32,
}

/// `floor(duration * numerator / denominator)` over the integers; meaningful
/// for a denominator other than zero.
pub open spec fn whole_seconds(numerator: int, denominator: int, duration: int) -> int {
    if denominator > 0 {
        (duration * numerator) / denominator
    } else {
        (-(duration * numerator)) / (-denominator)
    }
}

/// Duration of a stream in whole seconds, from its tick count and time base.
///
/// `None` where the time base has a zero denominator, or where the quotient is
/// negative or exceeds `u64::MAX`.
pub fn get_duration(time_base: TimeBase, duration: i64) -> (seconds: Option<u64>)
    ensures
        seconds == (if time_base.denominator != 0
            && 0 <= whole_seconds(time_base.numerator as int, time_base.denominator as int, duration as int)
                <= u64::MAX {
            Some(whole_seconds(time_base.numerator as int, time_base.denominator as int, duration as int) as u64)
        } else {
            None
        }),
{
    if time_base.denominator == 0 {
        return None;
    }
    let ticks: i128 = duration as i128;
    let numerator: i128 = time_base.numerator as i128;
    assert(-0x4000_0000_0000_0000_0000_0000 <= ticks * numerator <= 0x4000_0000_0000_0000_0000_0000)
        by (nonlinear_arith)
        requires
            -0x8000_0000_0000_0000 <= ticks <= 0x8000_0000_0000_0000,
            -0x8000_0000 <= numerator <= 0x8000_0000,
    ;
    let product: i128 = ticks * numerator;
    let (dividend, divisor): (i128, i128) = if time_base.denominator > 0 {
        (product, time_base.denominator as i128)
    } else {
        (-product, -(time_base.denominator as i128))
    };
    assert(whole_seconds(time_base.numerator as int, time_base.denominator as int, duration as int)
        == (dividend as int) / (divisor as int));
    if dividend < 0 {
        assert((dividend as int) / (divisor as int) < 0) by (nonlinear_arith)
            requires
                dividend < 0,
                divisor > 0,
        ;
        return None;
    }
    let quotient: u128 = (dividend as u128) / (divisor as u128);
    assert(0 <= (dividend as int) / (divisor as int)) by (nonlinear_arith)
        requires
            dividend >= 0,
            divisor > 0,
    ;
    if quotient > 0xffff_ffff_ffff_ffff {
        None
    } else {
        Some(quotient as u64)
    }
}

/// The metadata frame's content for an engine report: each number is the
/// report's, cut to the width of the wire field.
pub fn metadata_of(result: &ThumbnailerResult) -> (metadata: VideoMetadata)
    ensures
        metadata.width == result.width as i32,
        metadata.height == result.height as i32,
        metadata.duration_seconds == result.duration_seconds as i64,
        result.width <= i32::MAX ==> metadata.width == result.width,
        result.height <= i32::MAX ==> metadata.height == result.height,
        result.duration_seconds <= i64::MAX ==> metadata.duration_seconds == result.duration_seconds,
{
    VideoMetadata {
        width: #[verifier::truncate] (result.width as i32),
        height: #[verifier::truncate] (result.height as i32),
        duration_seconds: #[verifier::truncate] (result.duration_seconds as i64),
    }
}

/// Whether the scan for the thumbnail frame stops at a packet: a frame was
/// decoded from it, and its decode time stamp has reached the seek target.  A
/// packet without a time stamp counts as past every target.
pub fn accepts_frame(decoded: bool, dts: Option<i64>, seek_target: i64) -> (accepted: bool)
    ensures
        accepted == (decoded && match dts {
            Some(t) => t >= seek_target,
            None => true,
        }),
{
    decoded && match dts {
        Some(t) => t >= seek_target,
        None => true,
    }
}

} // verus!
