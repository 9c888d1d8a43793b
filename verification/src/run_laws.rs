//! What holds of every batch, said of what goes into it and what comes of it.

use vstd::prelude::*;

use crate::duration::Duration;
use crate::failure::{BatchFailure, BatchFailureView};
use crate::progress::UploadProgress;
use crate::response::Response;
use crate::run::{
    are_sizes, is_answered, is_next_upload, is_outcome, is_plan, is_support, known_sizes,
    law_sizes_add_up, service_of, total_size, AdapterKind, BatchRunMode, BatchRunOutput, Delivery,
    DirectBatchPlan, SegmentSizes, SegmentedBatch, Transcription,
};

verus! {

/// Only Anarlog's proxy has a cap, of 512 MiB, and takes every recording within it whole.
pub proof fn law_only_anarlog_has_a_cap(kind: AdapterKind)
    ensures
        service_of(AdapterKind::Anarlog).max_bytes == Some(536_870_912u64),
        !service_of(AdapterKind::Anarlog).uses_upload_limit,
        kind != AdapterKind::Anarlog ==> service_of(kind).max_bytes is None,
        kind != AdapterKind::Anarlog ==> service_of(kind).uses_upload_limit,
{
}

/// All providers but DashScope can be sent recordings, and DashScope is named as the one
/// that cannot.
pub proof fn law_all_but_dashscope_are_supported(
    answer: Result<(), BatchFailure>,
    kind: AdapterKind,
    provider: Seq<char>,
)
    requires
        is_support(answer, kind, provider),
    ensures
        kind != AdapterKind::DashScope ==> answer is Ok,
        kind == AdapterKind::DashScope ==> answer is Err && answer->Err_0@ == (
        BatchFailureView::DirectBatchUnsupported { provider }),
{
}

/// A recording is split exactly where a segment length is given, into segments of that
/// length, and a request may take twice as long as the audio and five minutes more, though
/// no less than a quarter of an hour and no more than six hours.
pub proof fn law_plan_follows_the_recording(
    plan: DirectBatchPlan,
    audio_duration: Option<Duration>,
    segment_duration: Option<Duration>,
)
    requires
        is_plan(plan, audio_duration, segment_duration),
    ensures
        segment_duration is None ==> plan.delivery is Whole,
        segment_duration is Some ==> plan.delivery == (Delivery::Segmented {
            segment_duration: segment_duration->0,
        }),
        900_000_000_000 <= plan.timeout@ <= 21_600_000_000_000,
        audio_duration is None ==> plan.timeout@ == 900_000_000_000,
        audio_duration is Some && 900_000_000_000 < plan.timeout@ < 21_600_000_000_000
            ==> plan.timeout@ == 2 * audio_duration->0@ + 300_000_000_000,
        audio_duration is Some && plan.timeout@ == 900_000_000_000 ==> 2 * audio_duration->0@
            + 300_000_000_000 <= 900_000_000_000,
        audio_duration is Some && plan.timeout@ == 21_600_000_000_000 ==> 2 * audio_duration->0@
            + 300_000_000_000 >= 21_600_000_000_000,
{
}

/// What a request ends with is what is told of it: its transcript as it is, its error to
/// the user, or how many whole seconds it was given.
pub proof fn law_outcome_follows_the_request<R>(
    outcome: Result<BatchRunOutput<R>, BatchFailure>,
    provider: Seq<char>,
    session_id: String,
    timeout: Duration,
    transcription: Transcription<R>,
)
    requires
        is_outcome(outcome, provider, session_id, timeout, transcription),
    ensures
        outcome is Ok <==> transcription is Completed,
        match transcription {
            Transcription::Completed(response) => {
                &&& outcome->Ok_0.response == response
                &&& outcome->Ok_0.session_id == session_id
                &&& outcome->Ok_0.mode == BatchRunMode::Direct
            },
            Transcription::Failed { message } => outcome->Err_0@ == (
            BatchFailureView::DirectRequestFailed { provider, message: message@ }),
            Transcription::TimedOut => match outcome->Err_0@ {
                BatchFailureView::DirectRequestTimedOut { provider: told, timeout_seconds } => {
                    &&& told == provider
                    &&& timeout_seconds * 1_000_000_000 <= timeout@ < (timeout_seconds + 1)
                        * 1_000_000_000
                },
                _ => false,
            },
        },
{
}

/// The uploads of two segments in a row meet: the later one starts where the earlier one
/// ends, both are of the same recording, the first one starts at nothing and the last one
/// ends at everything. After the last one there is none.
pub proof fn law_uploads_meet(
    upload: Option<UploadProgress>,
    next: Option<UploadProgress>,
    sizes: Seq<u64>,
    sent: nat,
)
    requires
        sent < sizes.len(),
        is_next_upload(upload, sizes, sent),
        is_next_upload(next, sizes, sent + 1),
    ensures
        upload is Some,
        upload->0.request() == sizes[sent as int],
        sent == 0 ==> upload->0.base() == 0,
        next is Some <==> sent + 1 < sizes.len(),
        next is Some ==> next->0.base() == upload->0.base() + upload->0.request(),
        next is Some ==> next->0.total() == upload->0.total(),
        next is None ==> upload->0.base() + upload->0.request() == upload->0.total(),
{
    let k = sent as int;
    let one = seq![sizes[k]];
    assert(sizes.take(k + 1) =~= sizes.take(k) + one);
    law_sizes_add_up(sizes.take(k), one, sizes[k]);
    assert(sizes.take(0) =~= Seq::<u64>::empty());
    if sent + 1 == sizes.len() {
        assert(sizes.take(k + 1) =~= sizes);
    }
}

/// What the uploads of a recording are shares of is all of its segments together.
pub proof fn law_uploads_are_shares_of_the_recording(
    upload: UploadProgress,
    sizes: Seq<u64>,
    sent: nat,
)
    requires
        is_next_upload(Some(upload), sizes, sent),
    ensures
        upload.total() == total_size(sizes),
        upload.base() + upload.request() <= upload.total(),
{
    let k = sent as int;
    let one = seq![sizes[k]];
    let rest = sizes.skip(k + 1);
    assert(sizes =~= sizes.take(k) + (one + rest));
    law_sizes_add_up(one, rest, sizes[k]);
    law_sizes_add_up(sizes.take(k), one + rest, sizes[k]);
}

/// The segments have the sizes that they were measured at, nothing where one could not be,
/// and they are refused only where all of them together are more than a `u64` counts.
pub proof fn law_segments_have_their_sizes(
    segments: Option<SegmentSizes>,
    sizes: Seq<Option<u64>>,
    known: Seq<u64>,
)
    requires
        are_sizes(segments, sizes),
        known.len() == sizes.len(),
        forall|i: int|
            0 <= i < sizes.len() ==> #[trigger] known[i] == match sizes[i] {
                Some(size) => size,
                None => 0,
            },
    ensures
        total_size(known) <= u64::MAX ==> segments is Some && segments->0.sizes() == known,
        total_size(known) > u64::MAX ==> segments is None,
{
    assert(known_sizes(sizes) =~= known);
}

/// An answer is added after the ones before it, and nothing else of the batch changes; a
/// failure ends the batch as it is.
pub proof fn law_answers_are_kept_in_order<S, T>(
    before: SegmentedBatch<S, T>,
    outcome: Result<BatchRunOutput<Response<S, T>>, BatchFailure>,
    after: Result<SegmentedBatch<S, T>, BatchFailure>,
)
    requires
        is_answered(before, outcome, after),
    ensures
        match outcome {
            Ok(output) => {
                &&& after is Ok
                &&& after->Ok_0.answers().len() == before.answers().len() + 1
                &&& after->Ok_0.answers().drop_last() == before.answers()
                &&& after->Ok_0.answers().last() == output.response
                &&& after->Ok_0.sizes() == before.sizes()
                &&& after->Ok_0.segment() == before.segment()
                &&& after->Ok_0.session() == before.session()
            },
            Err(failure) => after == Err::<SegmentedBatch<S, T>, _>(failure),
        },
{
    if let Ok(output) = outcome {
        assert(before.answers().push(output.response).drop_last() =~= before.answers());
    }
}

} // verus!
