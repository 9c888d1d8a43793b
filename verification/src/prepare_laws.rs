//! What holds of every preparation of a recording, said of the recording and the copy
//! themselves.

use vstd::prelude::*;

use crate::compression::{
    law_fat_recordings_are_worth_compressing, law_only_fat_recordings_are_worth_compressing,
};
use crate::duration::Duration;
use crate::failure::{BatchFailure, BatchFailureView};
use crate::prepare::{
    cap_check, capped, decided, encodes, is_begun, within_cap, Begun, CapCheck, Copying, Job,
    PreparedBatchUpload, Recording,
};

verus! {

/// A copy that is smaller than the recording is sent, however much smaller it is: of a
/// recording of at least a mebibyte, in one or two channels, at more than thirty thousand
/// bits a second for each.
pub proof fn law_smaller_copies_are_sent<P, D>(
    job: Job<P>,
    duration: Duration,
    channels: u8,
    temp_dir: D,
    path: P,
    size: u64,
)
    requires
        !job.force,
        job.recording.duration == Some(duration),
        job.recording.channels == Some(channels),
        job.recording.size_bytes >= 1_048_576,
        duration@ > 0,
        channels == 1 || channels == 2,
        job.recording.size_bytes * 8 * 1_000_000_000 > 30_000 * channels * duration@,
        size < job.recording.size_bytes,
    ensures
        job.outcome(Copying::Encoded { temp_dir, path, size }) == Ok::<_, BatchFailureView>(
            PreparedBatchUpload::Compressed { temp_dir, path },
        ),
{
    law_fat_recordings_are_worth_compressing(
        job.recording.size_bytes as nat,
        duration,
        channels,
    );
}

/// Without force, a copy that is no smaller than the recording is not sent; the recording
/// is.
pub proof fn law_copies_that_are_no_smaller_are_dropped<P, D>(
    job: Job<P>,
    temp_dir: D,
    path: P,
    size: u64,
)
    requires
        !job.force,
        size >= job.recording.size_bytes,
    ensures
        job.outcome(Copying::Encoded { temp_dir, path, size }) == Ok::<_, BatchFailureView>(
            PreparedBatchUpload::<P, D>::Original(job.source_path),
        ),
{
}

/// A smaller copy fares no worse: wherever a copy is sent, a smaller one is.
pub proof fn law_smaller_copies_fare_no_worse<P, D>(
    job: Job<P>,
    temp_dir: D,
    path: P,
    smaller: u64,
    larger: u64,
)
    requires
        smaller <= larger,
        job.outcome(Copying::Encoded { temp_dir, path, size: larger }) == Ok::<
            _,
            BatchFailureView,
        >(PreparedBatchUpload::Compressed { temp_dir, path }),
    ensures
        job.outcome(Copying::Encoded { temp_dir, path, size: smaller }) == Ok::<
            _,
            BatchFailureView,
        >(PreparedBatchUpload::Compressed { temp_dir, path }),
{
}

/// Without force, the recording itself is sent where there is no copy.
pub proof fn law_without_a_copy_the_recording_is_sent<P, D>(job: Job<P>)
    requires
        !job.force,
    ensures
        job.outcome(Copying::<P, D>::NoDirectory) == Ok::<_, BatchFailureView>(
            PreparedBatchUpload::<P, D>::Original(job.source_path),
        ),
        job.outcome(Copying::<P, D>::NotEncoded) == Ok::<_, BatchFailureView>(
            PreparedBatchUpload::<P, D>::Original(job.source_path),
        ),
{
}

/// Without force, a recording that is small, lean, of no length, of unknown length, or of
/// other channels than one or two is sent as it is, whatever became of a copy.
pub proof fn law_other_recordings_are_sent_as_they_are<P, D>(job: Job<P>, copying: Copying<P, D>)
    requires
        !job.force,
        ({
            let recording = job.recording;
            ||| recording.size_bytes < 1_048_576
            ||| recording.duration is None
            ||| recording.duration->0@ == 0
            ||| recording.channels is None
            ||| recording.channels != Some(1u8) && recording.channels != Some(2u8)
            ||| recording.size_bytes * 8 * 1_000_000_000 <= 30_000 * recording.channels->0
                * recording.duration->0@
        }),
    ensures
        job.outcome(copying) == Ok::<_, BatchFailureView>(
            PreparedBatchUpload::<P, D>::Original(job.source_path),
        ),
        !encodes(job.force, job.recording),
{
    if encodes(job.force, job.recording) {
        law_only_fat_recordings_are_worth_compressing(
            job.recording.size_bytes as nat,
            job.recording.duration,
            job.recording.channels,
        );
    }
}

/// A copy is encoded of every recording by force, and without force of every one of at
/// least a mebibyte, in one or two channels, at more than thirty thousand bits a second for
/// each.
pub proof fn law_fat_recordings_are_encoded(
    force: bool,
    recording: Recording,
    duration: Duration,
    channels: u8,
)
    requires
        force || {
            &&& recording.duration == Some(duration)
            &&& recording.channels == Some(channels)
            &&& recording.size_bytes >= 1_048_576
            &&& duration@ > 0
            &&& channels == 1 || channels == 2
            &&& recording.size_bytes * 8 * 1_000_000_000 > 30_000 * channels * duration@
        },
    ensures
        encodes(force, recording),
{
    if !force {
        law_fat_recordings_are_worth_compressing(recording.size_bytes as nat, duration, channels);
    }
}

/// With force, a copy is sent whatever its size, and where there is none, the failure says
/// to whom what could not be prepared.
pub proof fn law_forced_preparation<P, D>(job: Job<P>, temp_dir: D, path: P, size: u64)
    requires
        job.force,
    ensures
        job.outcome(Copying::Encoded { temp_dir, path, size }) == Ok::<_, BatchFailureView>(
            PreparedBatchUpload::Compressed { temp_dir, path },
        ),
        ({
            let told = BatchFailureView::DirectRequestFailed {
                provider: job.provider,
                message: "Anarlog couldn't prepare this large recording for transcription."@,
            };
            &&& job.outcome(Copying::<P, D>::NoDirectory) == Err::<PreparedBatchUpload<P, D>, _>(
                told,
            )
            &&& job.outcome(Copying::<P, D>::NotEncoded) == Err::<PreparedBatchUpload<P, D>, _>(
                told,
            )
        }),
{
}

/// A decision is passed on as it is: the file that is sent, or what the failure says.
pub proof fn law_decisions_are_passed_on<P, D>(
    upload: PreparedBatchUpload<P, D>,
    provider: String,
    message: String,
    timeout_seconds: u64,
)
    ensures
        decided(Ok::<_, BatchFailure>(upload)) == Ok::<_, BatchFailureView>(upload),
        decided(
            Err::<PreparedBatchUpload<P, D>, _>(
                BatchFailure::DirectRequestFailed { provider, message },
            ),
        ) == Err::<PreparedBatchUpload<P, D>, _>(
            BatchFailureView::DirectRequestFailed { provider: provider@, message: message@ },
        ),
        decided(
            Err::<PreparedBatchUpload<P, D>, _>(
                BatchFailure::DirectRequestTimedOut { provider, timeout_seconds },
            ),
        ) == Err::<PreparedBatchUpload<P, D>, _>(
            BatchFailureView::DirectRequestTimedOut { provider: provider@, timeout_seconds },
        ),
        decided(
            Err::<PreparedBatchUpload<P, D>, _>(BatchFailure::DirectBatchUnsupported { provider }),
        ) == Err::<PreparedBatchUpload<P, D>, _>(
            BatchFailureView::DirectBatchUnsupported { provider: provider@ },
        ),
{
}

/// A file is found where it is: the recording where it lies, a copy where it was put.
pub proof fn law_files_are_where_they_are<P, D>(temp_dir: D, path: P)
    ensures
        PreparedBatchUpload::<P, D>::Original(path).spec_path() == path,
        (PreparedBatchUpload::Compressed { temp_dir, path }).spec_path() == path,
{
}

/// A file within the cap is accepted, up to the last byte; above it, a recording is encoded
/// by force and a copy is measured again.
pub proof fn law_cap_decides<P, D>(
    path: P,
    temp_dir: D,
    upload: PreparedBatchUpload<P, D>,
    size_bytes: u64,
    max_bytes: u64,
)
    ensures
        size_bytes <= max_bytes ==> cap_check(upload, size_bytes, max_bytes) == CapCheck::Accept(
            upload,
        ),
        size_bytes > max_bytes ==> {
            let copy = PreparedBatchUpload::Compressed { temp_dir, path };
            &&& cap_check(PreparedBatchUpload::<P, D>::Original(path), size_bytes, max_bytes)
                == CapCheck::<P, D>::PrepareForced
            &&& cap_check(copy, size_bytes, max_bytes) == CapCheck::MeasureAgain(copy)
        },
{
}

/// The leanest copy is sent where it is within the cap, up to the last byte, and else the
/// failure says to whom the recording is too large to be sent.
pub proof fn law_leanest_copy_is_held_to_the_cap<P, D>(
    upload: PreparedBatchUpload<P, D>,
    size_bytes: u64,
    max_bytes: u64,
    provider: Seq<char>,
)
    ensures
        size_bytes <= max_bytes ==> within_cap(upload, size_bytes, max_bytes, provider) == Ok::<
            _,
            BatchFailureView,
        >(upload),
        size_bytes > max_bytes ==> within_cap(upload, size_bytes, max_bytes, provider) == Err::<
            PreparedBatchUpload<P, D>,
            _,
        >(
            BatchFailureView::DirectRequestFailed {
                provider,
                message:
                    "This recording is too large for cloud transcription. Split it into smaller files and try again."@,
            },
        ),
{
}

/// Whatever fits is sent: the file prepared without force where it is within the cap, and
/// else, where that was the recording itself, the copy encoded by force where it is.
pub proof fn law_what_fits_is_sent<P, D>(
    first: PreparedBatchUpload<P, D>,
    size: u64,
    again: u64,
    copy: PreparedBatchUpload<P, D>,
    copy_size: u64,
    max_bytes: u64,
    provider: Seq<char>,
)
    ensures
        size <= max_bytes ==> capped(
            (first, size),
            again,
            Ok((copy, copy_size)),
            max_bytes,
            provider,
        ) == Ok::<_, BatchFailureView>(first),
        size > max_bytes && first is Compressed && again <= max_bytes ==> capped(
            (first, size),
            again,
            Ok((copy, copy_size)),
            max_bytes,
            provider,
        ) == Ok::<_, BatchFailureView>(first),
        size > max_bytes && first is Original && copy_size <= max_bytes ==> capped(
            (first, size),
            again,
            Ok((copy, copy_size)),
            max_bytes,
            provider,
        ) == Ok::<_, BatchFailureView>(copy),
{
}

/// A recording goes on to be copied by force, and without force where it is at least a
/// mebibyte, in one or two channels, at more than thirty thousand bits a second for each;
/// any other is ready to be sent as it is.
pub proof fn law_preparation_begins<P, D>(begun: Begun<P, D>, job: Job<P>)
    requires
        is_begun(begun, job),
    ensures
        ({
            let recording = job.recording;
            let copied = job.force || {
                &&& recording.size_bytes >= 1_048_576
                &&& recording.duration is Some
                &&& recording.duration->0@ > 0
                &&& recording.channels == Some(1u8) || recording.channels == Some(2u8)
                &&& recording.size_bytes * 8 * 1_000_000_000 > 30_000 * recording.channels->0
                    * recording.duration->0@
            };
            match begun {
                Begun::Ready(upload) => {
                    &&& !copied
                    &&& upload == PreparedBatchUpload::<P, D>::Original(job.source_path)
                },
                Begun::CreateTempDir(awaiting) => copied && awaiting.job() == job,
            }
        }),
{
    let recording = job.recording;
    if !job.force {
        if encodes(job.force, recording) {
            law_only_fat_recordings_are_worth_compressing(
                recording.size_bytes as nat,
                recording.duration,
                recording.channels,
            );
        } else {
            if recording.duration is Some && recording.channels is Some
                && recording.size_bytes >= 1_048_576 && recording.duration->0@ > 0 && (
            recording.channels->0 == 1 || recording.channels->0 == 2) && recording.size_bytes * 8
                * 1_000_000_000 > 30_000 * recording.channels->0 * recording.duration->0@ {
                law_fat_recordings_are_worth_compressing(
                    recording.size_bytes as nat,
                    recording.duration->0,
                    recording.channels->0,
                );
            }
        }
    }
}

} // verus!
