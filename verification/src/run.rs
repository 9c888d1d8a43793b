//! Running a batch: how each provider is served, in how many requests, and what becomes
//! of the answers.

use vstd::prelude::*;

use crate::duration::Duration;
use crate::failure::{BatchFailure, BatchFailureView};
use crate::merge::{is_merge, merge_segment_responses, response_views, speakers_before, speakers_fit};
use crate::moved::Moved;
use crate::prepare::ANARLOG_PROXY_MAX_AUDIO_BYTES;
use crate::progress::UploadProgress;
use crate::response::Response;
use crate::timeout::{direct_batch_timeout_for_audio, length_of, timeout_for};

verus! {

/// The providers.
#[derive(Clone, Copy, Debug, PartialEq, Eq, Structural)]
pub enum AdapterKind {
    Anarlog,
    AquaVoice,
    Argmax,
    AssemblyAI,
    AwsTranscribe,
    AzureSpeech,
    Cartesia,
    Cohere,
    DashScope,
    Deepgram,
    ElevenLabs,
    Fireworks,
    Gladia,
    GoogleCloud,
    GoogleGenerativeAi,
    Groq,
    Mistral,
    OpenAI,
    OpenRouter,
    Pyannote,
    RevAi,
    SiliconFlow,
    Soniox,
    Speechmatics,
    Together,
    Xai,
    Zai,
}

/// How a provider is served: what a file may measure at most, where there is a hard cap,
/// and whether the provider's own upload limit decides if the recording is split.
#[derive(Clone, Copy, Debug, PartialEq, Eq)]
pub struct Service {
    pub max_bytes: Option<u64>,
    pub uses_upload_limit: bool,
}

/// How a provider is served.
pub open spec fn service_of(kind: AdapterKind) -> Service {
    if kind == AdapterKind::Anarlog {
        Service { max_bytes: Some(ANARLOG_PROXY_MAX_AUDIO_BYTES), uses_upload_limit: false }
    } else {
        Service { max_bytes: None, uses_upload_limit: true }
    }
}

/// How a provider is served: Anarlog's proxy has a hard cap and takes any recording within
/// it whole; all others have limits of their own.
pub fn service_for(kind: AdapterKind) -> (r: Service)
    ensures
        r.max_bytes == if kind == AdapterKind::Anarlog {
            Some(ANARLOG_PROXY_MAX_AUDIO_BYTES)
        } else {
            None
        },
        r.uses_upload_limit == (kind != AdapterKind::Anarlog),
        r == service_of(kind),
{
    match kind {
        AdapterKind::Anarlog => Service {
            max_bytes: Some(ANARLOG_PROXY_MAX_AUDIO_BYTES),
            uses_upload_limit: false,
        },
        _ => Service { max_bytes: None, uses_upload_limit: true },
    }
}

/// Whether `answer` says if a provider can be sent recordings at all.
pub open spec fn is_support(
    answer: Result<(), BatchFailure>,
    kind: AdapterKind,
    provider: Seq<char>,
) -> bool {
    match answer {
        Ok(()) => kind != AdapterKind::DashScope,
        Err(failure) => {
            &&& kind == AdapterKind::DashScope
            &&& failure@ == (BatchFailureView::DirectBatchUnsupported { provider })
        },
    }
}

/// Whether a provider can be sent recordings at all: only DashScope cannot.
pub fn check_supported(kind: AdapterKind, provider: String) -> (r: Result<(), BatchFailure>)
    ensures
        match r {
            Ok(()) => kind != AdapterKind::DashScope,
            Err(failure) => {
                &&& kind == AdapterKind::DashScope
                &&& failure@ == (BatchFailureView::DirectBatchUnsupported { provider: provider@ })
            },
        },
        is_support(r, kind, provider@),
{
    match kind {
        AdapterKind::DashScope => Err(BatchFailure::DirectBatchUnsupported { provider }),
        _ => Ok(()),
    }
}

/// How a recording goes out: in one request, or in one for each segment.
#[derive(Clone, Copy, Debug, PartialEq, Eq)]
pub enum Delivery {
    Whole,
    Segmented { segment_duration: Duration },
}

/// How a recording goes out, and how long each request may take.
#[derive(Clone, Copy, Debug, PartialEq, Eq)]
pub struct DirectBatchPlan {
    pub timeout: Duration,
    pub delivery: Delivery,
}

/// Whether `plan` is how a recording of that length goes out, split as `segment_duration`
/// says.
pub open spec fn is_plan(
    plan: DirectBatchPlan,
    audio_duration: Option<Duration>,
    segment_duration: Option<Duration>,
) -> bool {
    &&& plan.timeout@ == timeout_for(length_of(audio_duration))
    &&& match plan.delivery {
        Delivery::Whole => segment_duration is None,
        Delivery::Segmented { segment_duration: each } => segment_duration == Some(each),
    }
}

/// Plans the requests for a recording: each may take as long as the whole recording
/// allows, and the recording is split where `segment_duration` says how.
pub fn plan_direct_batch(
    audio_duration: Option<Duration>,
    segment_duration: Option<Duration>,
) -> (r: DirectBatchPlan)
    ensures
        r.timeout@ == timeout_for(length_of(audio_duration)),
        r.delivery == match segment_duration {
            Some(segment_duration) => Delivery::Segmented { segment_duration },
            None => Delivery::Whole,
        },
        is_plan(r, audio_duration, segment_duration),
{
    let timeout: Duration = direct_batch_timeout_for_audio(audio_duration);
    let delivery: Delivery = match segment_duration {
        Some(segment_duration) => Delivery::Segmented { segment_duration },
        None => Delivery::Whole,
    };
    DirectBatchPlan { timeout, delivery }
}

/// How a batch was run.
#[derive(Clone, Copy, Debug, PartialEq, Eq, Structural)]
pub enum BatchRunMode {
    Direct,
}

/// What came of a batch.
#[derive(Debug)]
pub struct BatchRunOutput<R> {
    pub session_id: String,
    pub mode: BatchRunMode,
    pub response: R,
}

/// How a request ended: with a transcript, with an error that is put to the user as
/// `message`, or not within its time.
#[derive(Debug)]
pub enum Transcription<R> {
    Completed(R),
    Failed { message: String },
    TimedOut,
}

/// Whether `outcome` is what came of a request that was given `timeout`.
pub open spec fn is_outcome<R>(
    outcome: Result<BatchRunOutput<R>, BatchFailure>,
    provider: Seq<char>,
    session_id: String,
    timeout: Duration,
    transcription: Transcription<R>,
) -> bool {
    match outcome {
        Ok(output) => {
            &&& output.session_id == session_id
            &&& output.mode == BatchRunMode::Direct
            &&& transcription == Transcription::Completed(output.response)
        },
        Err(failure) => match failure@ {
            BatchFailureView::DirectRequestFailed { provider: told, message: why } => {
                &&& told == provider
                &&& transcription matches Transcription::Failed { message }
                &&& why == message@
            },
            BatchFailureView::DirectRequestTimedOut { provider: told, timeout_seconds } => {
                &&& told == provider
                &&& transcription is TimedOut
                &&& timeout_seconds == timeout@ / 1_000_000_000
            },
            BatchFailureView::DirectBatchUnsupported { .. } => false,
        },
    }
}

/// What came of a request that was given `timeout`. A response is passed on as it is.
pub fn direct_batch_outcome<R>(
    provider: String,
    session_id: String,
    timeout: Duration,
    transcription: Transcription<R>,
) -> (r: Result<BatchRunOutput<R>, BatchFailure>)
    ensures
        match transcription {
            Transcription::Completed(response) => {
                &&& r matches Ok(output)
                &&& output.session_id == session_id
                &&& output.mode == BatchRunMode::Direct
                &&& output.response == response
            },
            Transcription::Failed { message } => {
                &&& r matches Err(failure)
                &&& failure@ == (BatchFailureView::DirectRequestFailed {
                    provider: provider@,
                    message: message@,
                })
            },
            Transcription::TimedOut => {
                &&& r matches Err(failure)
                &&& failure@ == (BatchFailureView::DirectRequestTimedOut {
                    provider: provider@,
                    timeout_seconds: (timeout@ / 1_000_000_000) as u64,
                })
            },
        },
        is_outcome(r, provider@, session_id, timeout, transcription),
{
    match transcription {
        Transcription::Completed(response) => Ok(
            BatchRunOutput { session_id, mode: BatchRunMode::Direct, response },
        ),
        Transcription::Failed { message } => Err(
            BatchFailure::DirectRequestFailed { provider, message },
        ),
        Transcription::TimedOut => Err(
            BatchFailure::DirectRequestTimedOut { provider, timeout_seconds: timeout.as_secs() },
        ),
    }
}

/// Each segment is one channel, whatever the recording had.
pub const SEGMENT_CHANNELS: u8 = 1;

/// The size of a file that may not be known; then it counts as empty.
pub open spec fn known_size(size: Option<u64>) -> u64 {
    match size {
        Some(size) => size,
        None => 0,
    }
}

/// The sizes of files, each counted as empty where it is not known.
pub open spec fn known_sizes(sizes: Seq<Option<u64>>) -> Seq<u64> {
    sizes.map_values(|size: Option<u64>| known_size(size))
}

/// The sizes together.
pub open spec fn total_size(sizes: Seq<u64>) -> nat
    decreases sizes.len(),
{
    if sizes.len() == 0 {
        0
    } else {
        total_size(sizes.drop_last()) + sizes.last() as nat
    }
}

/// The sizes of the segments of a recording, which together fit a `u64`.
#[derive(Debug)]
pub struct SegmentSizes {
    sizes: Vec<u64>,
    total: u64,
}

impl SegmentSizes {
    #[verifier::type_invariant]
    spec fn total_is_the_sum(self) -> bool {
        self.total == total_size(self.sizes@)
    }

    /// The size of each segment.
    pub closed spec fn sizes(self) -> Seq<u64> {
        self.sizes@
    }

    /// Takes the sizes of the segments, `None` where one cannot be told, which counts as
    /// empty. Gives `None` where the sizes are too large to be added up.
    pub fn new(sizes: &Vec<Option<u64>>) -> (r: Option<Self>)
        ensures
            match r {
                Some(segments) => {
                    &&& total_size(known_sizes(sizes@)) <= u64::MAX
                    &&& segments.sizes() == known_sizes(sizes@)
                },
                None => total_size(known_sizes(sizes@)) > u64::MAX,
            },
            are_sizes(r, sizes@),
    {
        let ghost all = known_sizes(sizes@);
        let mut known: Vec<u64> = Vec::new();
        let mut total: u64 = 0;
        let mut i: usize = 0;
        while i < sizes.len()
            invariant
                i <= sizes@.len(),
                all == known_sizes(sizes@),
                known@ == all.take(i as int),
                total == total_size(all.take(i as int)),
            decreases sizes@.len() - i,
        {
            let size: u64 = match sizes[i] {
                Some(size) => size,
                None => 0,
            };
            proof {
                assert(all.take(i + 1).drop_last() == all.take(i as int));
                assert(all.take(i + 1).last() == size);
                lemma_total_size_grows(all, i + 1);
            }
            total = match total.checked_add(size) {
                Some(sum) => sum,
                None => return None,
            };
            known.push(size);
            assert(known@ =~= all.take(i + 1));
            i = i + 1;
        }
        assert(all.take(i as int) == all);
        Some(SegmentSizes { sizes: known, total })
    }
}

/// Whether `segments` are the segments of the given sizes, where those can be added up.
pub open spec fn are_sizes(segments: Option<SegmentSizes>, sizes: Seq<Option<u64>>) -> bool {
    match segments {
        Some(segments) => {
            &&& segments.sizes() == known_sizes(sizes)
            &&& total_size(known_sizes(sizes)) <= u64::MAX
        },
        None => total_size(known_sizes(sizes)) > u64::MAX,
    }
}

/// The first sizes together are no more than all of them together.
proof fn lemma_total_size_grows(sizes: Seq<u64>, n: int)
    requires
        0 <= n <= sizes.len(),
    ensures
        total_size(sizes.take(n)) <= total_size(sizes),
    decreases sizes.len(),
{
    if n == sizes.len() {
        assert(sizes.take(n) == sizes);
    } else {
        assert(sizes.drop_last().take(n) == sizes.take(n));
        lemma_total_size_grows(sizes.drop_last(), n);
    }
}

/// Whether `upload` is that of the next segment after the first `sent` of them.
pub open spec fn is_next_upload(
    upload: Option<UploadProgress>,
    sizes: Seq<u64>,
    sent: nat,
) -> bool {
    match upload {
        Some(upload) => {
            &&& sent < sizes.len()
            &&& upload.base() == total_size(sizes.take(sent as int))
            &&& upload.request() == sizes[sent as int]
            &&& upload.total() == total_size(sizes)
        },
        None => sent == sizes.len(),
    }
}

/// A recording that is sent segment by segment: the answers so far.
#[derive(Debug)]
pub struct SegmentedBatch<S, T> {
    session_id: String,
    segment_duration: Duration,
    segments: SegmentSizes,
    base_bytes: u64,
    responses: Vec<Response<S, T>>,
}

impl<S, T> SegmentedBatch<S, T> {
    /// There are no more answers than segments, and the bytes so far are those of the
    /// segments that were answered.
    pub closed spec fn wf(self) -> bool {
        &&& self.responses@.len() <= self.segments.sizes().len()
        &&& self.base_bytes == total_size(
            self.segments.sizes().take(self.responses@.len() as int),
        )
    }

    /// The session that the recording belongs to.
    pub closed spec fn session(self) -> Seq<char> {
        self.session_id@
    }

    /// How long the segments are.
    pub closed spec fn segment(self) -> Duration {
        self.segment_duration
    }

    /// How many bytes each segment has.
    pub closed spec fn sizes(self) -> Seq<u64> {
        self.segments.sizes()
    }

    /// The answers so far.
    pub closed spec fn answers(self) -> Seq<Response<S, T>> {
        self.responses@
    }

    /// No segment has been sent yet.
    pub fn new(session_id: String, segment_duration: Duration, segments: SegmentSizes) -> (r: Self)
        ensures
            r.wf(),
            r.session() == session_id@,
            r.segment() == segment_duration,
            r.sizes() == segments.sizes(),
            r.answers() == Seq::<Response<S, T>>::empty(),
    {
        let r: SegmentedBatch<S, T> = SegmentedBatch {
            session_id,
            segment_duration,
            segments,
            base_bytes: 0,
            responses: Vec::new(),
        };
        assert(r.segments.sizes().take(0) =~= Seq::empty());
        r
    }

    /// How the next segment's upload adds to that of the recording; `None` where all
    /// segments have been answered.
    pub fn next_upload(&self) -> (r: Option<UploadProgress>)
        requires
            self.wf(),
        ensures
            match r {
                Some(upload) => {
                    let sent = self.answers().len();
                    &&& sent < self.sizes().len()
                    &&& upload.base() == total_size(self.sizes().take(sent as int))
                    &&& upload.request() == self.sizes()[sent as int]
                    &&& upload.total() == total_size(self.sizes())
                },
                None => self.answers().len() == self.sizes().len(),
            },
            is_next_upload(r, self.sizes(), self.answers().len()),
    {
        let segments: &SegmentSizes = &self.segments;
        let sent: usize = self.responses.len();
        if sent >= segments.sizes.len() {
            return None;
        }
        proof {
            use_type_invariant(segments);
            assert(segments.sizes@.take(sent + 1).drop_last() == segments.sizes@.take(sent as int));
            lemma_total_size_grows(segments.sizes@, sent + 1);
        }
        Some(UploadProgress::part(self.base_bytes, segments.sizes[sent], segments.total))
    }

    /// The next segment was answered. A failure ends the batch.
    pub fn answered(
        self,
        outcome: Result<BatchRunOutput<Response<S, T>>, BatchFailure>,
    ) -> (r: Result<Self, BatchFailure>)
        requires
            self.wf(),
            self.answers().len() < self.sizes().len(),
        ensures
            match outcome {
                Ok(output) => {
                    &&& r matches Ok(next)
                    &&& next.wf()
                    &&& next.session() == self.session()
                    &&& next.segment() == self.segment()
                    &&& next.sizes() == self.sizes()
                    &&& next.answers() == self.answers().push(output.response)
                },
                Err(failure) => r matches Err(told) && told == failure,
            },
            is_answered(self, outcome, r),
    {
        let output: BatchRunOutput<Response<S, T>> = match outcome {
            Ok(output) => output,
            Err(failure) => return Err(failure),
        };
        let mut next: SegmentedBatch<S, T> = self;
        let sent: usize = next.responses.len();
        let segments: &SegmentSizes = &next.segments;
        proof {
            use_type_invariant(segments);
            assert(segments.sizes@.take(sent + 1).drop_last() == segments.sizes@.take(sent as int));
            lemma_total_size_grows(segments.sizes@, sent + 1);
        }
        let size: u64 = segments.sizes[sent];
        next.base_bytes = next.base_bytes + size;
        next.responses.push(output.response);
        Ok(next)
    }

    /// Whether the speakers of the whole recording can be numbered.
    pub fn speakers_fit(&self) -> (r: bool)
        ensures
            r == (speakers_before(response_views(self.answers())) <= usize::MAX),
    {
        speakers_fit(&self.responses)
    }

    /// All segments have been answered: the answers are put together.
    pub fn finish(self) -> (r: BatchRunOutput<Response<Moved<S>, T>>)
        requires
            self.wf(),
            self.answers().len() == self.sizes().len(),
            speakers_before(response_views(self.answers())) <= usize::MAX,
        ensures
            r.session_id@ == self.session(),
            r.mode == BatchRunMode::Direct,
            is_merge(r.response@, response_views(self.answers()), self.segment()),
    {
        BatchRunOutput {
            session_id: self.session_id,
            mode: BatchRunMode::Direct,
            response: merge_segment_responses(self.responses, self.segment_duration),
        }
    }
}

/// Whether `after` is what becomes of a batch whose next segment was answered with `outcome`.
pub open spec fn is_answered<S, T>(
    before: SegmentedBatch<S, T>,
    outcome: Result<BatchRunOutput<Response<S, T>>, BatchFailure>,
    after: Result<SegmentedBatch<S, T>, BatchFailure>,
) -> bool {
    match after {
        Ok(after) => {
            &&& outcome is Ok
            &&& after.answers() == before.answers().push(outcome->Ok_0.response)
            &&& after.sizes() == before.sizes()
            &&& after.segment() == before.segment()
            &&& after.session() == before.session()
        },
        Err(told) => outcome is Err && told == outcome->Err_0,
    }
}

/// The uploads of the segments tile that of the recording: each starts where the one
/// before it ends, the first one at nothing, and the last one ends at everything.
pub proof fn law_uploads_tile_the_recording(sizes: Seq<u64>, k: int)
    requires
        0 <= k < sizes.len(),
    ensures
        total_size(sizes.take(0)) == 0,
        total_size(sizes.take(k)) + sizes[k] == total_size(sizes.take(k + 1)),
        total_size(sizes.take(sizes.len() as int)) == total_size(sizes),
{
    assert(sizes.take(k + 1).drop_last() == sizes.take(k));
    assert(sizes.take(sizes.len() as int) == sizes);
}

/// Only the last segment's upload can complete the recording, as long as the segments
/// after a segment hold any bytes.
pub proof fn law_only_the_last_upload_completes(sizes: Seq<u64>, k: int, later: int)
    requires
        0 <= k < later < sizes.len(),
        sizes[later] > 0,
    ensures
        total_size(sizes.take(k)) + sizes[k] < total_size(sizes),
{
    law_uploads_tile_the_recording(sizes, k);
    law_uploads_tile_the_recording(sizes, later);
    assert(sizes.take(later).take(k + 1) == sizes.take(k + 1));
    lemma_total_size_grows(sizes.take(later), k + 1);
    lemma_total_size_grows(sizes, later + 1);
}

/// A size that is known is taken as it is, and one that is not counts as nothing.
pub proof fn law_known_sizes_are_taken_as_they_are(sizes: Seq<Option<u64>>, i: int)
    requires
        0 <= i < sizes.len(),
    ensures
        known_sizes(sizes).len() == sizes.len(),
        sizes[i] is Some ==> known_sizes(sizes)[i] == sizes[i]->0,
        sizes[i] is None ==> known_sizes(sizes)[i] == 0,
{
}

/// Sizes add up, from nothing, and it makes no difference where a list of them is cut.
pub proof fn law_sizes_add_up(first: Seq<u64>, second: Seq<u64>, size: u64)
    ensures
        total_size(Seq::<u64>::empty()) == 0,
        total_size(seq![size]) == size,
        total_size(first + second) == total_size(first) + total_size(second),
    decreases second.len(),
{
    assert(seq![size].drop_last() =~= Seq::<u64>::empty());
    if second.len() == 0 {
        assert(first + second =~= first);
    } else {
        assert((first + second).drop_last() =~= first + second.drop_last());
        law_sizes_add_up(first, second.drop_last(), size);
    }
}

} // verus!
