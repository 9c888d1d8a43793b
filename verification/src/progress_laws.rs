//! What holds of all progress reports.

use vstd::prelude::*;

use crate::fraction::Fraction;
use crate::progress::{
    completes, interval, is_emission, is_report, is_whole_upload, passes, settled, tells, uploaded,
    BatchEvent, BatchProgressStage, BatchStreamEvent, UploadProgress,
};

verus! {

/// A report handed to `BatchProgress::emit`: on which stage, whether the stage is at its
/// start or its end, and when.
pub struct Call {
    pub stage: BatchProgressStage,
    pub settled: bool,
    pub now: nat,
}

/// The last report that was passed on after `calls`.
pub open spec fn last_after(calls: Seq<Call>) -> Option<(BatchProgressStage, nat)>
    decreases calls.len(),
{
    if calls.len() == 0 {
        None
    } else {
        let call = calls.last();
        let before = last_after(calls.drop_last());
        if passes(before, call.stage, call.settled, call.now) {
            Some((call.stage, call.now))
        } else {
            before
        }
    }
}

/// Whether call `i` is passed on.
pub open spec fn passed_on(calls: Seq<Call>, i: int) -> bool {
    passes(last_after(calls.take(i)), calls[i].stage, calls[i].settled, calls[i].now)
}

/// The start and the end of a stage are always told.
pub proof fn law_start_and_end_are_always_told(calls: Seq<Call>, i: int)
    requires
        0 <= i < calls.len(),
        calls[i].settled,
    ensures
        passed_on(calls, i),
{
}

proof fn lemma_last_stays(calls: Seq<Call>, i: int, n: int)
    requires
        0 <= i < n <= calls.len(),
        passed_on(calls, i),
        forall|k: int| i < k < n ==> !#[trigger] passed_on(calls, k),
    ensures
        last_after(calls.take(n)) == Some((calls[i].stage, calls[i].now)),
    decreases n,
{
    let upto = calls.take(n);
    assert(upto.drop_last() == calls.take(n - 1));
    assert(upto.last() == calls[n - 1]);
    if i < n - 1 {
        assert(!passed_on(calls, n - 1));
        lemma_last_stays(calls, i, n - 1);
    }
}

/// A change of stage is always told: a call whose stage is not that of the last report
/// passed on is passed on.
pub proof fn law_change_of_stage_is_always_told(calls: Seq<Call>, i: int, j: int)
    requires
        0 <= i < j < calls.len(),
        passed_on(calls, i),
        forall|k: int| i < k < j ==> !#[trigger] passed_on(calls, k),
        calls[i].stage != calls[j].stage,
    ensures
        passed_on(calls, j),
{
    lemma_last_stays(calls, i, j);
}

/// Reports on one stage are spaced: of two reports passed on one after the other on the
/// same stage, the second comes at least the interval after the first, unless it tells
/// the start or the end of the stage.
pub proof fn law_reports_are_spaced(calls: Seq<Call>, i: int, j: int)
    requires
        0 <= i < j < calls.len(),
        passed_on(calls, i),
        passed_on(calls, j),
        forall|k: int| i < k < j ==> !#[trigger] passed_on(calls, k),
        calls[i].stage == calls[j].stage,
        !calls[j].settled,
    ensures
        calls[j].now >= calls[i].now + interval(),
{
    lemma_last_stays(calls, i, j);
}

/// A report is only held back where one on the same stage was passed on less than the
/// interval before.
pub proof fn law_reports_are_held_back_for_a_reason(calls: Seq<Call>, j: int)
    requires
        0 <= j < calls.len(),
        !passed_on(calls, j),
    ensures
        exists|i: int|
            {
                &&& 0 <= i < j
                &&& #[trigger] passed_on(calls, i)
                &&& calls[i].stage == calls[j].stage
                &&& calls[j].now < calls[i].now + interval()
            },
{
    lemma_last_was_passed_on(calls, j);
    let i = choose|i: int|
        0 <= i < j && #[trigger] passed_on(calls, i) && last_after(calls.take(j)) == Some(
            (calls[i].stage, calls[i].now),
        );
    assert(passed_on(calls, i));
}

proof fn lemma_last_was_passed_on(calls: Seq<Call>, n: int)
    requires
        0 <= n <= calls.len(),
        last_after(calls.take(n)) is Some,
    ensures
        exists|i: int|
            0 <= i < n && #[trigger] passed_on(calls, i) && last_after(calls.take(n)) == Some(
                (calls[i].stage, calls[i].now),
            ),
    decreases n,
{
    if n > 0 {
        let upto = calls.take(n);
        assert(upto.drop_last() == calls.take(n - 1));
        assert(upto.last() == calls[n - 1]);
        if passed_on(calls, n - 1) {
        } else {
            lemma_last_was_passed_on(calls, n - 1);
            let i = choose|i: int|
                0 <= i < n - 1 && #[trigger] passed_on(calls, i) && last_after(calls.take(n - 1))
                    == Some((calls[i].stage, calls[i].now));
            assert(passed_on(calls, i));
        }
    }
}

/// How many of the calls are passed on.
pub open spec fn told(calls: Seq<Call>) -> nat
    decreases calls.len(),
{
    if calls.len() == 0 {
        0
    } else {
        told(calls.drop_last()) + if passed_on(calls, calls.len() - 1) {
            1nat
        } else {
            0
        }
    }
}

/// Whether all calls are on the same stage, none of them at its start or its end.
pub open spec fn is_one_stage(calls: Seq<Call>) -> bool {
    forall|i: int|
        0 <= i < calls.len() ==> (#[trigger] calls[i]).stage == calls[0].stage && !calls[i].settled
}

proof fn lemma_last_is_far(calls: Seq<Call>)
    requires
        calls.len() > 0,
        is_one_stage(calls),
    ensures
        told(calls) >= 1,
        exists|i: int|
            0 <= i < calls.len() && last_after(calls) == Some(
                (calls[0].stage, (#[trigger] calls[i]).now),
            ) && calls[i].now >= calls[0].now + (told(calls) - 1) * interval(),
    decreases calls.len(),
{
    let front = calls.drop_last();
    let n = calls.len() - 1;
    assert(calls.take(n) == front);
    if n == 0 {
        assert(last_after(front) is None);
        assert(told(front) == 0);
        assert(last_after(calls) == Some((calls[0].stage, calls[0].now)));
        assert((told(calls) - 1) * interval() == 0) by (nonlinear_arith)
            requires
                told(calls) == 1,
        ;
    } else {
        assert(is_one_stage(front)) by {
            assert forall|i: int| 0 <= i < front.len() implies (#[trigger] front[i]).stage
                == front[0].stage && !front[i].settled by {
                assert(calls[i].stage == calls[0].stage);
            }
        }
        lemma_last_is_far(front);
        let i = choose|i: int|
            0 <= i < front.len() && last_after(front) == Some(
                (front[0].stage, (#[trigger] front[i]).now),
            ) && front[i].now >= front[0].now + (told(front) - 1) * interval();
        assert(calls[n].stage == calls[0].stage);
        assert(calls[i] == front[i]);
        if passed_on(calls, n) {
            assert((told(calls) - 1) * interval() == (told(front) - 1) * interval() + interval())
                by (nonlinear_arith)
                requires
                    told(calls) == told(front) + 1,
            ;
            assert(calls[n].now >= calls[i].now + interval());
            assert(last_after(calls) == Some((calls[0].stage, calls[n].now)));
        }
    }
}

/// A stage does not flood the channel: between its start and its end, no more reports on
/// it are passed on than one for each interval, beside the first.
pub proof fn law_a_stage_does_not_flood(calls: Seq<Call>, latest: nat)
    requires
        calls.len() > 0,
        is_one_stage(calls),
        forall|i: int| 0 <= i < calls.len() ==> (#[trigger] calls[i]).now <= latest,
    ensures
        (told(calls) - 1) * interval() <= latest - calls[0].now,
{
    lemma_last_is_far(calls);
}

/// No more than everything is ever reported as uploaded.
pub proof fn law_upload_is_at_most_whole(
    base: nat,
    request: nat,
    total: nat,
    sent: nat,
    body_len: nat,
)
    requires
        base + request <= total,
    ensures
        uploaded(base, request, sent, body_len) <= total * body_len,
{
    let counted = if sent <= body_len {
        sent
    } else {
        body_len
    };
    assert(base * body_len + counted * request <= total * body_len) by (nonlinear_arith)
        requires
            base + request <= total,
            counted <= body_len,
    ;
}

/// Upload progress never goes back while a request is sent.
pub proof fn law_upload_never_goes_back(
    base: nat,
    request: nat,
    fewer: nat,
    more: nat,
    body_len: nat,
)
    requires
        fewer <= more,
    ensures
        uploaded(base, request, fewer, body_len) <= uploaded(base, request, more, body_len),
{
    let a = if fewer <= body_len {
        fewer
    } else {
        body_len
    };
    let b = if more <= body_len {
        more
    } else {
        body_len
    };
    assert(a * request <= b * request) by (nonlinear_arith)
        requires
            a <= b,
    ;
}

/// Upload progress is seamless from request to request: where one request ends, the next
/// one starts, whatever the lengths of the two bodies. The two fractions are compared
/// multiplied out.
pub proof fn law_upload_is_seamless(
    base: nat,
    request: nat,
    next_request: nat,
    total: nat,
    body_len: nat,
    next_body_len: nat,
)
    ensures
        uploaded(base, request, body_len, body_len) * (total * next_body_len) == uploaded(
            base + request,
            next_request,
            0,
            next_body_len,
        ) * (total * body_len),
{
    assert((base * body_len + body_len * request) * (total * next_body_len) == ((base + request)
        * next_body_len + 0 * next_request) * (total * body_len)) by (nonlinear_arith);
}

/// When the last request has been sent whole, everything is reported as uploaded.
pub proof fn law_upload_ends_whole(base: nat, request: nat, sent: nat, body_len: nat)
    requires
        sent >= body_len,
    ensures
        uploaded(base, request, sent, body_len) == (base + request) * body_len,
{
    assert(base * body_len + body_len * request == (base + request) * body_len)
        by (nonlinear_arith);
}

/// Of a request's bytes, exactly the share of its body that was sent is counted: with
/// `sent` of the `body_len` bytes of the body gone, `sent / body_len` of them, and all of
/// them beyond the end.
pub proof fn law_upload_counts_the_share_sent(base: nat, request: nat, sent: nat, body_len: nat)
    ensures
        sent <= body_len ==> uploaded(base, request, sent, body_len) == base * body_len + sent
            * request,
        sent >= body_len ==> uploaded(base, request, sent, body_len) == base * body_len + body_len
            * request,
{
}

/// Upload progress is even: every byte of the body that is sent adds as much as any other.
pub proof fn law_upload_progress_is_even(
    base: nat,
    request: nat,
    sent: nat,
    more: nat,
    body_len: nat,
)
    requires
        sent + more <= body_len,
    ensures
        uploaded(base, request, sent + more, body_len) == uploaded(base, request, sent, body_len)
            + more * request,
        uploaded(base, request, 0, body_len) == base * body_len,
{
    assert((sent + more) * request == sent * request + more * request) by (nonlinear_arith);
    assert(0 * request == 0) by (nonlinear_arith);
}

/// Bytes of earlier requests count in full, whatever the request at hand has sent.
pub proof fn law_earlier_requests_count_in_full(
    base: nat,
    more: nat,
    request: nat,
    sent: nat,
    body_len: nat,
)
    ensures
        uploaded(base + more, request, sent, body_len) == uploaded(base, request, sent, body_len)
            + more * body_len,
{
    assert((base + more) * body_len == base * body_len + more * body_len) by (nonlinear_arith);
}

/// The transcription begins exactly when the body has been sent whole and its request is
/// the last: when no bytes of the recording are left for a later one.
pub proof fn law_transcription_begins_when_all_is_sent(
    upload: UploadProgress,
    sent: u64,
    body_len: u64,
)
    ensures
        sent < body_len ==> !completes(upload, sent, body_len),
        upload.base() + upload.request() < upload.total() ==> !completes(upload, sent, body_len),
        sent >= body_len && upload.base() + upload.request() >= upload.total() ==> completes(
            upload,
            sent,
            body_len,
        ),
{
}

/// A report is held back exactly where the last one was on the same stage, less than a
/// quarter of a second before, and the stage is neither at its start nor at its end.
pub proof fn law_only_reports_in_quick_succession_are_held_back(
    last: (BatchProgressStage, nat),
    stage: BatchProgressStage,
    percentage: Fraction,
    now: nat,
)
    ensures
        passes(None, stage, settled(percentage), now),
        percentage.num() == 0 ==> passes(Some(last), stage, settled(percentage), now),
        percentage.num() >= percentage.den() ==> passes(
            Some(last),
            stage,
            settled(percentage),
            now,
        ),
        last.0 != stage ==> passes(Some(last), stage, settled(percentage), now),
        now >= last.1 + 250_000_000 ==> passes(Some(last), stage, settled(percentage), now),
        0 < percentage.num() < percentage.den() && last.0 == stage && now < last.1 + 250_000_000
            ==> !passes(Some(last), stage, settled(percentage), now),
{
}

/// An event tells the session it is for, no text, the stage it is about, and a share that is
/// worth what was reported, or one where more than that was.
pub proof fn law_events_tell_what_was_reported(
    session_id: String,
    shown: Fraction,
    partial_text: Option<String>,
    at: Option<BatchProgressStage>,
    session: Seq<char>,
    stage: BatchProgressStage,
    percentage: Fraction,
)
    requires
        tells(
            BatchEvent::BatchResponseStreamed {
                session_id,
                event: BatchStreamEvent::Progress { percentage: shown, partial_text, stage: at },
            },
            session,
            stage,
            percentage,
        ),
    ensures
        session_id@ == session,
        partial_text is None,
        at == Some(stage),
        percentage.num() <= percentage.den() ==> shown.num() * percentage.den()
            == percentage.num() * shown.den(),
        percentage.num() <= percentage.den() ==> shown.num() <= shown.den(),
        percentage.num() > percentage.den() ==> shown.num() == shown.den(),
{
}

/// The first report is how much of the recording is uploaded: all bytes of the requests
/// before, and as large a share of this request's as of its body, of all bytes. The second
/// one comes when the last body has been sent whole, and tells that the transcription has
/// begun. Nothing is reported of an empty recording or an empty body.
pub proof fn law_report_tells_the_share_uploaded(
    upload: UploadProgress,
    sent: u64,
    body_len: u64,
    reports: Seq<(BatchProgressStage, Fraction)>,
)
    requires
        is_report(upload, sent, body_len, reports),
    ensures
        upload.total() == 0 ==> reports.len() == 0,
        body_len == 0 ==> reports.len() == 0,
        upload.total() > 0 && body_len > 0 ==> {
            &&& reports.len() >= 1
            &&& reports[0].0 == BatchProgressStage::Uploading
            &&& reports[0].1.den() == upload.total() * body_len as nat
            &&& sent <= body_len ==> reports[0].1.num() == upload.base() * body_len as nat
                + sent as nat * upload.request()
            &&& sent >= body_len ==> reports[0].1.num() == (upload.base() + upload.request())
                * body_len as nat
        },
        upload.total() > 0 && body_len > 0 && sent >= body_len && upload.base() + upload.request()
            >= upload.total() ==> {
            &&& reports.len() == 2
            &&& reports[1].0 == BatchProgressStage::Transcribing
            &&& reports[1].1.num() == 0
            &&& reports[1].1.den() == 1
        },
        upload.total() > 0 && body_len > 0 && (sent < body_len || upload.base() + upload.request()
            < upload.total()) ==> reports.len() == 1,
{
    assert(upload.base() * body_len as nat + body_len as nat * upload.request() == (upload.base()
        + upload.request()) * body_len as nat) by (nonlinear_arith);
}

/// A whole file starts from nothing and has all bytes of the recording; a file of unknown
/// size has none.
pub proof fn law_whole_upload_is_the_file(upload: UploadProgress, file_bytes: Option<u64>)
    requires
        is_whole_upload(upload, file_bytes),
    ensures
        upload.base() == 0,
        upload.request() == upload.total(),
        file_bytes is Some ==> upload.total() == file_bytes->0,
        file_bytes is None ==> upload.total() == 0,
{
}

/// Every report is either told and remembered as the last, or, in quick succession on one
/// stage between its start and its end, held back and forgotten.
pub proof fn law_reports_are_told_or_held_back(
    event: Option<BatchEvent>,
    session: Seq<char>,
    last: Option<(BatchProgressStage, nat)>,
    last_after: Option<(BatchProgressStage, nat)>,
    stage: BatchProgressStage,
    percentage: Fraction,
    now: nat,
)
    requires
        is_emission(event, session, last, last_after, stage, percentage, now),
    ensures
        ({
            let held_back = match last {
                Some((last_stage, at)) => {
                    &&& last_stage == stage
                    &&& now < at + 250_000_000
                    &&& 0 < percentage.num() < percentage.den()
                },
                None => false,
            };
            &&& held_back ==> event is None && last_after == last
            &&& !held_back ==> event is Some && last_after == Some((stage, now)) && tells(
                event->0,
                session,
                stage,
                percentage,
            )
        }),
{
}

} // verus!
