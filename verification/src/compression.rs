//! Whether a recording is worth re-encoding before it is uploaded.

use vstd::prelude::*;

use crate::duration::{Duration, MAX_NANOS};
use crate::timeout::length_of;

verus! {

/// Speech survives this comfortably; recordings are stored at 64 kbps per channel for
/// playback, so uploads shrink by more than half.
pub const UPLOAD_KBPS_PER_CHANNEL: u32 = 24;

/// Below this a re-encode takes longer than the upload it would save.
pub const UPLOAD_COMPRESSION_MIN_BYTES: u64 = 1_048_576;

/// A recording is re-encoded only where its bit rate is more than this many quarters of
/// the target.
pub const UPLOAD_COMPRESSION_MIN_RATIO_QUARTERS: u32 = 5;

/// Whether `size_bytes` bytes in `nanos` nanoseconds come in at more than five quarters
/// of the target bit rate for `channels` channels.
///
/// The bit rate is `size_bytes * 8 / (nanos / 10^9) / 1000` kbps; the fractions are
/// multiplied out.
pub open spec fn exceeds_target_rate(size_bytes: nat, nanos: nat, channels: nat) -> bool {
    size_bytes * 8 * 1_000_000 * 4 > UPLOAD_KBPS_PER_CHANNEL * channels
        * UPLOAD_COMPRESSION_MIN_RATIO_QUARTERS * nanos
}

/// Whether a recording is worth re-encoding: it is large enough, its length is known and
/// not zero, it has one or two channels, and its bit rate is well above the target.
pub open spec fn worth_compressing(
    size_bytes: nat,
    nanos: Option<nat>,
    channels: Option<u8>,
) -> bool {
    &&& size_bytes >= UPLOAD_COMPRESSION_MIN_BYTES
    &&& nanos is Some
    &&& nanos->0 > 0
    &&& channels is Some
    &&& (channels->0 == 1 || channels->0 == 2)
    &&& exceeds_target_rate(size_bytes, nanos->0, channels->0 as nat)
}

/// Whether a recording is worth re-encoding before it is uploaded.
pub fn should_compress_for_upload(
    size_bytes: u64,
    duration: Option<Duration>,
    channels: Option<u8>,
) -> (r: bool)
    ensures
        r == worth_compressing(size_bytes as nat, length_of(duration), channels),
{
    if size_bytes < UPLOAD_COMPRESSION_MIN_BYTES {
        return false;
    }
    let nanos: u128 = match duration {
        Some(duration) => duration.as_nanos(),
        None => return false,
    };
    if nanos == 0 {
        return false;
    }
    let channels: u8 = match channels {
        Some(channels) => channels,
        None => return false,
    };
    if channels != 1 && channels != 2 {
        return false;
    }
    let source: u128 = size_bytes as u128 * 8 * 1_000_000 * 4;
    let target: u32 = UPLOAD_KBPS_PER_CHANNEL * channels as u32
        * UPLOAD_COMPRESSION_MIN_RATIO_QUARTERS;
    assert(target * nanos <= 240 * MAX_NANOS) by (nonlinear_arith)
        requires
            target <= 240,
            nanos <= MAX_NANOS,
    ;
    source > target as u128 * nanos
}

/// The size in bytes, times eight million, of audio at the target bit rate.
pub open spec fn target_size_scaled(nanos: nat, channels: nat) -> nat {
    (UPLOAD_KBPS_PER_CHANNEL * channels * nanos) as nat
}

/// A recording that is already small, or already lean, is sent as it is: one that is
/// worth compressing is at least a mebibyte and more than a quarter larger than it is at
/// the target bit rate.
pub proof fn law_compression_pays(size_bytes: nat, nanos: nat, channels: u8)
    requires
        worth_compressing(size_bytes, Some(nanos), Some(channels)),
    ensures
        size_bytes >= UPLOAD_COMPRESSION_MIN_BYTES,
        4 * (size_bytes * 8_000_000) > 5 * target_size_scaled(nanos, channels as nat),
{
    assert(UPLOAD_KBPS_PER_CHANNEL * channels * UPLOAD_COMPRESSION_MIN_RATIO_QUARTERS * nanos == 5
        * (UPLOAD_KBPS_PER_CHANNEL * channels * nanos)) by (nonlinear_arith);
}

/// A larger recording of the same audio is worth compressing wherever a smaller one is.
pub proof fn law_larger_is_more_worth(
    smaller: nat,
    larger: nat,
    nanos: Option<nat>,
    channels: Option<u8>,
)
    requires
        smaller <= larger,
        worth_compressing(smaller, nanos, channels),
    ensures
        worth_compressing(larger, nanos, channels),
{
}

/// A shorter recording of the same size is worth compressing wherever a longer one is,
/// as long as it has a length.
pub proof fn law_shorter_is_more_worth(
    size_bytes: nat,
    shorter: nat,
    longer: nat,
    channels: Option<u8>,
)
    requires
        0 < shorter <= longer,
        worth_compressing(size_bytes, Some(longer), channels),
    ensures
        worth_compressing(size_bytes, Some(shorter), channels),
{
    let target = UPLOAD_KBPS_PER_CHANNEL * channels->0 * UPLOAD_COMPRESSION_MIN_RATIO_QUARTERS;
    assert(target * shorter <= target * longer) by (nonlinear_arith)
        requires
            0 <= target,
            shorter <= longer,
    ;
}

/// A mono recording is worth compressing wherever a stereo one of the same size and
/// length is.
pub proof fn law_mono_is_more_worth(size_bytes: nat, nanos: Option<nat>)
    requires
        worth_compressing(size_bytes, nanos, Some(2)),
    ensures
        worth_compressing(size_bytes, nanos, Some(1)),
{
    let n = nanos->0;
    assert(UPLOAD_KBPS_PER_CHANNEL * 1 * UPLOAD_COMPRESSION_MIN_RATIO_QUARTERS * n
        <= UPLOAD_KBPS_PER_CHANNEL * 2 * UPLOAD_COMPRESSION_MIN_RATIO_QUARTERS * n)
        by (nonlinear_arith);
}

/// Every recording that is fat enough is re-encoded, however long it is: at least a
/// mebibyte, in one or two channels, at more than thirty thousand bits a second for each.
pub proof fn law_fat_recordings_are_worth_compressing(
    size_bytes: nat,
    duration: Duration,
    channels: u8,
)
    requires
        size_bytes >= 1_048_576,
        duration@ > 0,
        channels == 1 || channels == 2,
        size_bytes * 8 * 1_000_000_000 > 30_000 * channels * duration@,
    ensures
        worth_compressing(size_bytes, length_of(Some(duration)), Some(channels)),
{
    let nanos = duration@;
    assert(24 * 1 * 5 * nanos == 120 * nanos) by (nonlinear_arith);
    assert(24 * 2 * 5 * nanos == 240 * nanos) by (nonlinear_arith);
    assert(30_000 * 1 * nanos == 30_000 * nanos) by (nonlinear_arith);
    assert(30_000 * 2 * nanos == 60_000 * nanos) by (nonlinear_arith);
}

/// No other recording is: not one below a mebibyte, of no length or of unknown length, with
/// other channels than one or two or an unknown number of them, or at thirty thousand bits
/// a second for each channel or fewer.
pub proof fn law_only_fat_recordings_are_worth_compressing(
    size_bytes: nat,
    duration: Option<Duration>,
    channels: Option<u8>,
)
    requires
        worth_compressing(size_bytes, length_of(duration), channels),
    ensures
        size_bytes >= 1_048_576,
        duration is Some,
        duration->0@ > 0,
        channels == Some(1u8) || channels == Some(2u8),
        size_bytes * 8 * 1_000_000_000 > 30_000 * channels->0 * duration->0@,
{
    let nanos = duration->0@;
    assert(24 * 1 * 5 * nanos == 120 * nanos) by (nonlinear_arith);
    assert(24 * 2 * 5 * nanos == 240 * nanos) by (nonlinear_arith);
    assert(30_000 * 1 * nanos == 30_000 * nanos) by (nonlinear_arith);
    assert(30_000 * 2 * nanos == 60_000 * nanos) by (nonlinear_arith);
}

/// It is the bit rate that counts, not the size or the length: a recording of at least a
/// mebibyte whose bit rate is no lower than that of one that is worth compressing is worth
/// compressing too. The two rates are compared multiplied out.
pub proof fn law_bit_rate_is_what_counts(
    size_bytes: nat,
    nanos: nat,
    other_size_bytes: nat,
    other_nanos: nat,
    channels: Option<u8>,
)
    requires
        worth_compressing(size_bytes, Some(nanos), channels),
        other_size_bytes >= 1_048_576,
        other_nanos > 0,
        other_size_bytes * nanos >= size_bytes * other_nanos,
    ensures
        worth_compressing(other_size_bytes, Some(other_nanos), channels),
{
    let target = (24 * channels->0 * 5) as nat;
    assert(size_bytes * 32_000_000 > target * nanos) by {
        assert(UPLOAD_KBPS_PER_CHANNEL * channels->0 * UPLOAD_COMPRESSION_MIN_RATIO_QUARTERS
            * nanos == target * nanos);
    }
    assert(other_size_bytes * 32_000_000 > target * other_nanos) by (nonlinear_arith)
        requires
            size_bytes * 32_000_000 > target * nanos,
            nanos > 0,
            other_nanos > 0,
            other_size_bytes * nanos >= size_bytes * other_nanos,
    ;
}

/// Each channel has its own share of the bit rate: a stereo recording is worth compressing
/// exactly where a mono one of half the size and the same length is.
pub proof fn law_channels_count_alike(size_bytes: nat, nanos: Option<nat>)
    requires
        size_bytes >= 1_048_576,
    ensures
        worth_compressing(2 * size_bytes, nanos, Some(2)) <==> worth_compressing(
            size_bytes,
            nanos,
            Some(1),
        ),
{
    let n = match nanos {
        Some(n) => n,
        None => 0,
    };
    assert(24 * 1 * 5 * n == 120 * n) by (nonlinear_arith);
    assert(24 * 2 * 5 * n == 240 * n) by (nonlinear_arith);
}

} // verus!
