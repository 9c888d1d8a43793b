//! Getting a recording ready for upload: which file is sent, the recording itself or a
//! leaner copy of it.

use vstd::prelude::*;

use crate::compression::{
    should_compress_for_upload, worth_compressing, UPLOAD_COMPRESSION_MIN_BYTES,
    UPLOAD_KBPS_PER_CHANNEL,
};
use crate::duration::Duration;
use crate::failure::{BatchFailure, BatchFailureView};
use crate::fraction::Fraction;
use crate::progress::BatchProgressStage;
use crate::timeout::length_of;

verus! {

/// The most that the Anarlog proxy takes in one file.
pub const ANARLOG_PROXY_MAX_AUDIO_BYTES: u64 = 536_870_912;

/// A file that is ready to be sent: the recording itself, or a copy in a directory that
/// lives as long as this does.
#[derive(Debug, PartialEq, Eq)]
pub enum PreparedBatchUpload<P, D> {
    Original(P),
    Compressed { temp_dir: D, path: P },
}

impl<P, D> PreparedBatchUpload<P, D> {
    /// Where the file is.
    pub open spec fn spec_path(self) -> P {
        match self {
            PreparedBatchUpload::Original(path) => path,
            PreparedBatchUpload::Compressed { path, .. } => path,
        }
    }

    /// Where the file is.
    pub fn path(&self) -> (r: &P)
        ensures
            *r == self.spec_path(),
    {
        match self {
            PreparedBatchUpload::Original(path) => path,
            PreparedBatchUpload::Compressed { path, .. } => path,
        }
    }

    /// Whether this is a leaner copy.
    pub fn is_compressed(&self) -> (r: bool)
        ensures
            r == (self is Compressed),
    {
        match self {
            PreparedBatchUpload::Original(_) => false,
            PreparedBatchUpload::Compressed { .. } => true,
        }
    }
}

/// What is known of a recording: its size, its length and its number of channels.
#[derive(Clone, Copy, Debug)]
pub struct Recording {
    pub size_bytes: u64,
    pub duration: Option<Duration>,
    pub channels: Option<u8>,
}

/// Whether a copy is encoded at all.
pub open spec fn encodes(force: bool, recording: Recording) -> bool {
    force || worth_compressing(
        recording.size_bytes as nat,
        length_of(recording.duration),
        recording.channels,
    )
}

/// Whether an encoded copy is sent in place of the recording.
pub open spec fn prefers_copy(force: bool, source_size: u64, encoded_size: u64) -> bool {
    force || encoded_size < source_size
}

/// What is told where a copy had to be encoded and could not be.
pub open spec fn unpreparable(provider: Seq<char>) -> BatchFailureView {
    BatchFailureView::DirectRequestFailed {
        provider,
        message: "Anarlog couldn't prepare this large recording for transcription."@,
    }
}

/// A recording that is being prepared: who it is sent to, whether a copy has to be sent,
/// where the recording is, and what is known of it.
pub struct Job<P> {
    pub provider: Seq<char>,
    pub force: bool,
    pub source_path: P,
    pub recording: Recording,
}

/// What became of the copy: there was no directory for it, the encoder failed, or it was
/// encoded and is so many bytes.
pub enum Copying<P, D> {
    NoDirectory,
    NotEncoded,
    Encoded { temp_dir: D, path: P, size: u64 },
}

impl<P> Job<P> {
    /// What is sent where there is no copy: the recording itself, unless a copy has to be.
    pub open spec fn without_copy<D>(self) -> Result<PreparedBatchUpload<P, D>, BatchFailureView> {
        if self.force {
            Err(unpreparable(self.provider))
        } else {
            Ok(PreparedBatchUpload::Original(self.source_path))
        }
    }

    /// What is sent in the end, `copying` being what became of the copy where one is
    /// encoded at all.
    pub open spec fn outcome<D>(self, copying: Copying<P, D>) -> Result<
        PreparedBatchUpload<P, D>,
        BatchFailureView,
    > {
        if !encodes(self.force, self.recording) {
            Ok(PreparedBatchUpload::Original(self.source_path))
        } else {
            match copying {
                Copying::NoDirectory => self.without_copy(),
                Copying::NotEncoded => self.without_copy(),
                Copying::Encoded { temp_dir, path, size } => if prefers_copy(
                    self.force,
                    self.recording.size_bytes,
                    size,
                ) {
                    Ok(PreparedBatchUpload::Compressed { temp_dir, path })
                } else {
                    Ok(PreparedBatchUpload::Original(self.source_path))
                },
            }
        }
    }
}

/// What was decided, with the failure taken as what it says.
pub open spec fn decided<P, D>(r: Result<PreparedBatchUpload<P, D>, BatchFailure>) -> Result<
    PreparedBatchUpload<P, D>,
    BatchFailureView,
> {
    match r {
        Ok(upload) => Ok(upload),
        Err(failure) => Err(failure@),
    }
}

/// What to do with a recording: send it, or make a directory for a copy.
#[derive(Debug)]
pub enum Begun<P, D> {
    Ready(PreparedBatchUpload<P, D>),
    CreateTempDir(AwaitingTempDir<P>),
}

/// A recording of which a copy will be encoded, once there is a directory for it.
#[derive(Debug)]
pub struct AwaitingTempDir<P> {
    provider: String,
    force: bool,
    source_path: P,
    recording: Recording,
}

/// A recording of which a copy is being encoded.
#[derive(Debug)]
pub struct Encoding<P, D> {
    prepared: AwaitingTempDir<P>,
    temp_dir: D,
    path: P,
}

/// A recording of which a copy has been encoded, whose size is to be measured.
#[derive(Debug)]
pub struct Measuring<P, D> {
    prepared: AwaitingTempDir<P>,
    temp_dir: D,
    path: P,
}

/// Whether `begun` is what to do with the recording first.
pub open spec fn is_begun<P, D>(begun: Begun<P, D>, job: Job<P>) -> bool {
    match begun {
        Begun::Ready(upload) => {
            &&& !encodes(job.force, job.recording)
            &&& upload == PreparedBatchUpload::<P, D>::Original(job.source_path)
        },
        Begun::CreateTempDir(awaiting) => {
            &&& encodes(job.force, job.recording)
            &&& awaiting.job() == job
        },
    }
}

/// Decides whether to re-encode a recording to a lean speech bitrate before it goes over
/// the wire. A recording that is already small, or already lean, is sent as it is; `force`
/// re-encodes regardless, for providers with a hard size cap.
pub fn begin_upload<P, D>(provider: String, force: bool, source_path: P, recording: Recording) -> (r:
    Begun<P, D>)
    ensures
        ({
            let job = Job { provider: provider@, force, source_path, recording };
            match r {
                Begun::Ready(upload) => {
                    &&& !encodes(force, recording)
                    &&& forall|copying: Copying<P, D>| #[trigger]
                        job.outcome(copying) == Ok::<_, BatchFailureView>(upload)
                },
                Begun::CreateTempDir(awaiting) => {
                    &&& encodes(force, recording)
                    &&& awaiting.job() == job
                },
            }
        }),
        is_begun(r, Job { provider: provider@, force, source_path, recording }),
{
    if !force && !should_compress_for_upload(
        recording.size_bytes,
        recording.duration,
        recording.channels,
    ) {
        return Begun::Ready(PreparedBatchUpload::Original(source_path));
    }
    Begun::CreateTempDir(AwaitingTempDir { provider, force, source_path, recording })
}

impl<P> AwaitingTempDir<P> {
    #[verifier::type_invariant]
    spec fn is_worth_it(self) -> bool {
        encodes(self.force, self.recording)
    }

    /// The recording that is being prepared.
    pub closed spec fn job(self) -> Job<P> {
        Job {
            provider: self.provider@,
            force: self.force,
            source_path: self.source_path,
            recording: self.recording,
        }
    }

    /// The directory is there; the copy goes to `path` in it.
    pub fn created<D>(self, temp_dir: D, path: P) -> (r: Encoding<P, D>)
        ensures
            r.job() == self.job(),
            r.spec_temp_dir() == temp_dir,
            r.spec_path() == path,
    {
        Encoding { prepared: self, temp_dir, path }
    }

    /// There is no directory.
    pub fn failed<D>(self) -> (r: Result<PreparedBatchUpload<P, D>, BatchFailure>)
        ensures
            decided(r) == self.job().outcome(Copying::<P, D>::NoDirectory),
    {
        proof {
            use_type_invariant(&self);
        }
        self.fall_back()
    }

    /// Sends the recording itself, unless a copy has to be sent.
    fn fall_back<D>(self) -> (r: Result<PreparedBatchUpload<P, D>, BatchFailure>)
        ensures
            decided(r) == self.job().without_copy::<D>(),
    {
        if self.force {
            Err(
                BatchFailure::DirectRequestFailed {
                    provider: self.provider,
                    message:
                        "Anarlog couldn't prepare this large recording for transcription.".to_owned(),
                },
            )
        } else {
            Ok(PreparedBatchUpload::Original(self.source_path))
        }
    }
}

impl<P, D> Encoding<P, D> {
    /// The recording that is being prepared.
    pub closed spec fn job(self) -> Job<P> {
        self.prepared.job()
    }

    /// The directory of the copy.
    pub closed spec fn spec_temp_dir(self) -> D {
        self.temp_dir
    }

    /// Where the copy goes.
    pub closed spec fn spec_path(self) -> P {
        self.path
    }

    /// Where the copy goes.
    pub fn path(&self) -> (r: &P)
        ensures
            *r == self.spec_path(),
    {
        &self.path
    }

    /// The bit rate to encode the copy at, in kbps for each channel.
    pub fn kbps_per_channel(&self) -> (r: u32)
        ensures
            r == UPLOAD_KBPS_PER_CHANNEL,
    {
        UPLOAD_KBPS_PER_CHANNEL
    }

    /// What to report when the encoder starts.
    pub fn starting(&self) -> (r: (BatchProgressStage, Fraction))
        ensures
            r.0 == BatchProgressStage::Preparing,
            r.1.num() == 0,
            r.1.den() == 1,
    {
        (BatchProgressStage::Preparing, Fraction::zero())
    }

    /// What to report when `share` of the copy is encoded.
    pub fn encoded(&self, share: Fraction) -> (r: (BatchProgressStage, Fraction))
        ensures
            r.0 == BatchProgressStage::Preparing,
            r.1 == share,
    {
        (BatchProgressStage::Preparing, share)
    }

    /// The encoder is done; the copy is to be measured.
    pub fn finished(self) -> (r: Measuring<P, D>)
        ensures
            r.job() == self.job(),
            r.spec_temp_dir() == self.spec_temp_dir(),
            r.spec_path() == self.spec_path(),
    {
        Measuring { prepared: self.prepared, temp_dir: self.temp_dir, path: self.path }
    }

    /// The encoder failed, or did not come back.
    pub fn failed(self) -> (r: Result<PreparedBatchUpload<P, D>, BatchFailure>)
        ensures
            decided(r) == self.job().outcome(Copying::<P, D>::NotEncoded),
    {
        let prepared: AwaitingTempDir<P> = self.prepared;
        proof {
            use_type_invariant(&prepared);
        }
        prepared.fall_back()
    }
}

impl<P, D> Measuring<P, D> {
    /// The recording that is being prepared.
    pub closed spec fn job(self) -> Job<P> {
        self.prepared.job()
    }

    /// The directory of the copy.
    pub closed spec fn spec_temp_dir(self) -> D {
        self.temp_dir
    }

    /// Where the copy is.
    pub closed spec fn spec_path(self) -> P {
        self.path
    }

    /// Where the copy is.
    pub fn path(&self) -> (r: &P)
        ensures
            *r == self.spec_path(),
    {
        &self.path
    }

    /// The copy is `size` bytes. It is sent where it is smaller than the recording, or has
    /// to be.
    pub fn measured(self, size: u64) -> (r: PreparedBatchUpload<P, D>)
        ensures
            Ok::<_, BatchFailureView>(r) == self.job().outcome(
                Copying::Encoded { temp_dir: self.spec_temp_dir(), path: self.spec_path(), size },
            ),
    {
        let prepared: AwaitingTempDir<P> = self.prepared;
        proof {
            use_type_invariant(&prepared);
        }
        if !prepared.force && size >= prepared.recording.size_bytes {
            return PreparedBatchUpload::Original(prepared.source_path);
        }
        PreparedBatchUpload::Compressed { temp_dir: self.temp_dir, path: self.path }
    }
}

/// Without force, preparing never fails: whatever becomes of the copy, something is sent.
pub proof fn law_unforced_preparation_never_fails<P, D>(job: Job<P>, copying: Copying<P, D>)
    requires
        !job.force,
    ensures
        job.outcome(copying) is Ok,
{
}

/// Without force, what is sent is never larger than the recording.
pub proof fn law_unforced_preparation_never_grows<P, D>(job: Job<P>, copying: Copying<P, D>)
    requires
        !job.force,
    ensures
        job.outcome(copying)->Ok_0 is Compressed ==> copying is Encoded && copying->size
            < job.recording.size_bytes,
        job.outcome(copying)->Ok_0 is Original ==> job.outcome(copying)->Ok_0.spec_path()
            == job.source_path,
{
}

/// With force, the recording itself is never sent: it is a copy or a failure.
pub proof fn law_forced_preparation_never_sends_the_original<P, D>(
    job: Job<P>,
    copying: Copying<P, D>,
)
    requires
        job.force,
    ensures
        match copying {
            Copying::Encoded { temp_dir, path, size } => job.outcome(copying) == Ok::<
                _,
                BatchFailureView,
            >(PreparedBatchUpload::Compressed { temp_dir, path }),
            _ => job.outcome(copying) == Err::<PreparedBatchUpload<P, D>, _>(
                unpreparable(job.provider),
            ),
        },
{
}

/// Without force, a recording below the least size is sent as it is.
pub proof fn law_small_recordings_are_sent_as_they_are<P, D>(job: Job<P>, copying: Copying<P, D>)
    requires
        !job.force,
        job.recording.size_bytes < UPLOAD_COMPRESSION_MIN_BYTES,
    ensures
        job.outcome(copying) == Ok::<_, BatchFailureView>(
            PreparedBatchUpload::<P, D>::Original(job.source_path),
        ),
{
}

/// What is told where even the leanest copy is too large.
pub open spec fn too_large(provider: Seq<char>) -> BatchFailureView {
    BatchFailureView::DirectRequestFailed {
        provider,
        message:
            "This recording is too large for cloud transcription. Split it into smaller files and try again."@,
    }
}

/// What to do with a file that was prepared without force, for a provider with a hard size
/// cap: send it, encode a copy by force, or measure the file once more before it is
/// refused.
#[derive(Debug, PartialEq, Eq)]
pub enum CapCheck<P, D> {
    Accept(PreparedBatchUpload<P, D>),
    PrepareForced,
    MeasureAgain(PreparedBatchUpload<P, D>),
}

/// How a file that was prepared without force fares under the cap: within it, the file is
/// sent. Above it, a copy is encoded by force, unless the file is a copy already.
pub open spec fn cap_check<P, D>(
    upload: PreparedBatchUpload<P, D>,
    size_bytes: u64,
    max_bytes: u64,
) -> CapCheck<P, D> {
    if size_bytes <= max_bytes {
        CapCheck::Accept(upload)
    } else if upload is Compressed {
        CapCheck::MeasureAgain(upload)
    } else {
        CapCheck::PrepareForced
    }
}

/// Holds a file that was prepared without force to the cap.
pub fn check_cap<P, D>(upload: PreparedBatchUpload<P, D>, size_bytes: u64, max_bytes: u64) -> (r:
    CapCheck<P, D>)
    ensures
        r == cap_check(upload, size_bytes, max_bytes),
{
    if size_bytes <= max_bytes {
        return CapCheck::Accept(upload);
    }
    if upload.is_compressed() {
        CapCheck::MeasureAgain(upload)
    } else {
        CapCheck::PrepareForced
    }
}

/// `upload` where its size is within the cap, and else what is told.
pub open spec fn within_cap<P, D>(
    upload: PreparedBatchUpload<P, D>,
    size_bytes: u64,
    max_bytes: u64,
    provider: Seq<char>,
) -> Result<PreparedBatchUpload<P, D>, BatchFailureView> {
    if size_bytes > max_bytes {
        Err(too_large(provider))
    } else {
        Ok(upload)
    }
}

/// Holds the leanest copy there is to the cap: above it, the recording is refused.
pub fn enforce_cap<P, D>(
    upload: PreparedBatchUpload<P, D>,
    size_bytes: u64,
    max_bytes: u64,
    provider: String,
) -> (r: Result<PreparedBatchUpload<P, D>, BatchFailure>)
    ensures
        decided(r) == within_cap(upload, size_bytes, max_bytes, provider@),
{
    if size_bytes > max_bytes {
        return Err(
            BatchFailure::DirectRequestFailed {
                provider,
                message:
                    "This recording is too large for cloud transcription. Split it into smaller files and try again.".to_owned(),
            },
        );
    }
    Ok(upload)
}

/// What is sent to a provider with a hard size cap: `first` is the file prepared without
/// force, `forced` what came of preparing it by force; each comes with its size when it
/// was measured, and `again` is the size of the first file when it was measured once more.
pub open spec fn capped<P, D>(
    first: (PreparedBatchUpload<P, D>, u64),
    again: u64,
    forced: Result<(PreparedBatchUpload<P, D>, u64), BatchFailureView>,
    max_bytes: u64,
    provider: Seq<char>,
) -> Result<PreparedBatchUpload<P, D>, BatchFailureView> {
    let (upload, size) = first;
    match cap_check(upload, size, max_bytes) {
        CapCheck::Accept(accepted) => Ok(accepted),
        CapCheck::MeasureAgain(measured) => within_cap(measured, again, max_bytes, provider),
        CapCheck::PrepareForced => match forced {
            Ok((copy, copy_size)) => within_cap(copy, copy_size, max_bytes, provider),
            Err(failure) => Err(failure),
        },
    }
}

/// Nothing above the cap is ever sent: what is sent is one of the two files, and its size
/// when it was last measured is within the cap.
pub proof fn law_cap_is_kept<P, D>(
    first: (PreparedBatchUpload<P, D>, u64),
    again: u64,
    forced: Result<(PreparedBatchUpload<P, D>, u64), BatchFailureView>,
    max_bytes: u64,
    provider: Seq<char>,
)
    requires
        capped(first, again, forced, max_bytes, provider) is Ok,
    ensures
        ({
            let (upload, size) = first;
            let sent = capped(first, again, forced, max_bytes, provider)->Ok_0;
            ||| sent == upload && (size <= max_bytes || again <= max_bytes)
            ||| match forced {
                Ok((copy, copy_size)) => sent == copy && copy_size <= max_bytes,
                Err(_) => false,
            }
        }),
{
}

/// A recording is refused as too large only after a copy of it was found above the cap.
pub proof fn law_only_copies_are_refused<P, D>(
    first: (PreparedBatchUpload<P, D>, u64),
    again: u64,
    forced: Result<(PreparedBatchUpload<P, D>, u64), BatchFailureView>,
    max_bytes: u64,
    provider: Seq<char>,
)
    requires
        capped(first, again, forced, max_bytes, provider) is Err,
        forced is Ok,
    ensures
        capped(first, again, forced, max_bytes, provider) == Err::<PreparedBatchUpload<P, D>, _>(
            too_large(provider),
        ),
        ({
            let (upload, size) = first;
            let (copy, copy_size) = forced->Ok_0;
            ||| upload is Compressed && again > max_bytes
            ||| upload is Original && copy_size > max_bytes
        }),
{
}

} // verus!
