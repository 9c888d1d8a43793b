//! What is told about the progress of a batch, and how often.

use vstd::prelude::*;

use crate::duration::Duration;
use crate::fraction::Fraction;

verus! {

/// Between two reports on one stage at least this long passes, unless the stage is at its
/// start or its end.
pub const PROGRESS_EMIT_INTERVAL_MILLIS: u64 = 250;

/// What a batch is busy with.
#[derive(Clone, Copy, Debug, PartialEq, Eq, Structural)]
pub enum BatchProgressStage {
    Preparing,
    Uploading,
    Transcribing,
}

/// What a batch says while it runs.
#[derive(Debug)]
pub enum BatchStreamEvent {
    Progress {
        percentage: Fraction,
        partial_text: Option<String>,
        stage: Option<BatchProgressStage>,
    },
}

/// What is told to whoever watches the session.
#[derive(Debug)]
pub enum BatchEvent {
    BatchResponseStreamed { session_id: String, event: BatchStreamEvent },
}

/// The report interval in nanoseconds.
pub open spec fn interval() -> nat {
    (PROGRESS_EMIT_INTERVAL_MILLIS * 1_000_000) as nat
}

/// Whether a fraction is nothing, or everything and more.
pub open spec fn settled(percentage: Fraction) -> bool {
    percentage.num() == 0 || percentage.num() >= percentage.den()
}

/// Whether a report on `stage` at time `now` is passed on, `last` being the stage and the
/// time of the last report that was.
pub open spec fn passes(
    last: Option<(BatchProgressStage, nat)>,
    stage: BatchProgressStage,
    settled: bool,
    now: nat,
) -> bool {
    match last {
        Some((last_stage, at)) => settled || last_stage != stage || now >= at + interval(),
        None => true,
    }
}

/// Whether `event` tells session `session` that `stage` is at `percentage`, held at one.
pub open spec fn tells(
    event: BatchEvent,
    session: Seq<char>,
    stage: BatchProgressStage,
    percentage: Fraction,
) -> bool {
    match event {
        BatchEvent::BatchResponseStreamed {
            session_id,
            event: BatchStreamEvent::Progress { percentage: shown, partial_text, stage: at },
        } => {
            &&& session_id@ == session
            &&& partial_text is None
            &&& at == Some(stage)
            &&& if percentage.num() <= percentage.den() {
                shown == percentage
            } else {
                shown.num() == 1 && shown.den() == 1
            }
        },
    }
}

/// Forwards preparation and upload progress, throttled so a fast link does not flood the
/// event channel.
#[derive(Debug)]
pub struct BatchProgress {
    session_id: String,
    last_emit: Option<(BatchProgressStage, Duration)>,
}

impl BatchProgress {
    /// The session that is told.
    pub closed spec fn session(self) -> Seq<char> {
        self.session_id@
    }

    /// The stage and the time of the last report that was passed on.
    pub closed spec fn last(self) -> Option<(BatchProgressStage, nat)> {
        match self.last_emit {
            Some((stage, at)) => Some((stage, at@)),
            None => None,
        }
    }

    /// Nothing has been reported yet.
    pub fn new(session_id: String) -> (r: Self)
        ensures
            r.session() == session_id@,
            r.last() is None,
    {
        BatchProgress { session_id, last_emit: None }
    }

    /// Reports that `stage` is at `percentage`, at time `now` on a clock that does not go
    /// back. Gives the event to pass on, or `None` where the report comes too soon after
    /// the last one.
    pub fn emit(&mut self, stage: BatchProgressStage, percentage: Fraction, now: Duration) -> (r:
        Option<BatchEvent>)
        ensures
            final(self).session() == old(self).session(),
            r is Some <==> passes(old(self).last(), stage, settled(percentage), now@),
            match r {
                Some(event) => {
                    &&& tells(event, old(self).session(), stage, percentage)
                    &&& final(self).last() == Some((stage, now@))
                },
                None => *final(self) == *old(self),
            },
            is_emission(
                r,
                old(self).session(),
                old(self).last(),
                final(self).last(),
                stage,
                percentage,
                now@,
            ),
    {
        let shown: Fraction = percentage.at_most_one();
        let settled: bool = percentage.is_settled();
        if !settled {
            if let Some((last_stage, at)) = self.last_emit {
                let gap: Duration = Duration::from_millis(PROGRESS_EMIT_INTERVAL_MILLIS);
                if last_stage == stage && now.saturating_sub(at).as_nanos() < gap.as_nanos() {
                    return None;
                }
            }
        }
        self.last_emit = Some((stage, now));
        Some(
            BatchEvent::BatchResponseStreamed {
                session_id: self.session_id.clone(),
                event: BatchStreamEvent::Progress {
                    percentage: shown,
                    partial_text: None,
                    stage: Some(stage),
                },
            },
        )
    }
}

/// Maps one request body's upload onto the whole recording, which may be split across
/// several requests.
#[derive(Clone, Copy, Debug, PartialEq, Eq)]
pub struct UploadProgress {
    base_bytes: u64,
    request_bytes: u64,
    total_bytes: u64,
}

impl UploadProgress {
    #[verifier::type_invariant]
    spec fn bytes_add_up(self) -> bool {
        self.base_bytes + self.request_bytes <= u64::MAX
    }

    /// The bytes of the requests before this one.
    pub closed spec fn base(self) -> nat {
        self.base_bytes as nat
    }

    /// The bytes of this request.
    pub closed spec fn request(self) -> nat {
        self.request_bytes as nat
    }

    /// The bytes of all requests.
    pub closed spec fn total(self) -> nat {
        self.total_bytes as nat
    }

    /// The upload of a whole file in one request. `file_bytes` is the file's size, or
    /// `None` where it cannot be told, which counts as an empty file.
    pub fn whole(file_bytes: Option<u64>) -> (r: Self)
        ensures
            r.base() == 0,
            r.request() == match file_bytes {
                Some(bytes) => bytes as nat,
                None => 0,
            },
            r.total() == r.request(),
            is_whole_upload(r, file_bytes),
    {
        let bytes: u64 = match file_bytes {
            Some(bytes) => bytes,
            None => 0,
        };
        UploadProgress { base_bytes: 0, request_bytes: bytes, total_bytes: bytes }
    }

    /// The upload of one part of a recording, after `base_bytes` bytes in the requests
    /// before.
    pub fn part(base_bytes: u64, request_bytes: u64, total_bytes: u64) -> (r: Self)
        requires
            base_bytes + request_bytes <= u64::MAX,
        ensures
            r.base() == base_bytes,
            r.request() == request_bytes,
            r.total() == total_bytes,
    {
        UploadProgress { base_bytes, request_bytes, total_bytes }
    }

    /// What there is to report, in order, when `sent` of the `body_len` bytes of the body
    /// have been sent: the bytes of the requests before and the same share of this
    /// request's bytes, of all bytes; and, when the last request has been sent whole, that
    /// the transcription has begun. Nothing, where there are no bytes at all.
    pub fn report(&self, sent: u64, body_len: u64) -> (r: Vec<(BatchProgressStage, Fraction)>)
        ensures
            self.total() == 0 || body_len == 0 ==> r@.len() == 0,
            self.total() > 0 && body_len > 0 ==> {
                &&& r@.len() == if completes(*self, sent, body_len) {
                    2nat
                } else {
                    1
                }
                &&& r@[0].0 == BatchProgressStage::Uploading
                &&& r@[0].1.num() == uploaded(
                    self.base(),
                    self.request(),
                    sent as nat,
                    body_len as nat,
                )
                &&& r@[0].1.den() == self.total() * body_len as nat
                &&& completes(*self, sent, body_len) ==> {
                    &&& r@[1].0 == BatchProgressStage::Transcribing
                    &&& r@[1].1.num() == 0
                    &&& r@[1].1.den() == 1
                }
            },
            is_report(*self, sent, body_len, r@),
    {
        let mut reports: Vec<(BatchProgressStage, Fraction)> = Vec::new();
        if self.total_bytes == 0 || body_len == 0 {
            return reports;
        }
        proof {
            use_type_invariant(self);
        }
        let base: u64 = self.base_bytes;
        let request: u64 = self.request_bytes;
        let total: u64 = self.total_bytes;
        let counted: u64 = if sent <= body_len {
            sent
        } else {
            body_len
        };
        proof {
            assert(base * body_len + counted * request <= u128::MAX && base * body_len
                <= u128::MAX && counted * request <= u128::MAX && 0 < total * body_len
                <= u128::MAX) by (nonlinear_arith)
                requires
                    0 <= base,
                    0 <= request,
                    base + request <= u64::MAX,
                    0 <= counted <= body_len <= u64::MAX,
                    0 < total <= u64::MAX,
                    0 < body_len,
            ;
        }
        let done: u128 = base as u128 * body_len as u128 + counted as u128 * request as u128;
        let share: Fraction = Fraction::new(done, total as u128 * body_len as u128);
        reports.push((BatchProgressStage::Uploading, share));
        if sent >= body_len && base + request >= total {
            reports.push((BatchProgressStage::Transcribing, Fraction::zero()));
        }
        reports
    }
}

/// Whether `event` is what becomes of a report on `stage` at time `now`: an event that tells
/// it and is the last from then on, or, where it does not pass, none.
pub open spec fn is_emission(
    event: Option<BatchEvent>,
    session: Seq<char>,
    last: Option<(BatchProgressStage, nat)>,
    last_after: Option<(BatchProgressStage, nat)>,
    stage: BatchProgressStage,
    percentage: Fraction,
    now: nat,
) -> bool {
    match event {
        Some(event) => {
            &&& passes(last, stage, settled(percentage), now)
            &&& tells(event, session, stage, percentage)
            &&& last_after == Some((stage, now))
        },
        None => {
            &&& !passes(last, stage, settled(percentage), now)
            &&& last_after == last
        },
    }
}

/// Whether `upload` is that of a whole file in one request.
pub open spec fn is_whole_upload(upload: UploadProgress, file_bytes: Option<u64>) -> bool {
    let bytes = match file_bytes {
        Some(bytes) => bytes as nat,
        None => 0,
    };
    upload.base() == 0 && upload.request() == bytes && upload.total() == bytes
}

/// Whether `reports` is what there is to report when `sent` of the `body_len` bytes of the
/// body have been sent.
pub open spec fn is_report(
    upload: UploadProgress,
    sent: u64,
    body_len: u64,
    reports: Seq<(BatchProgressStage, Fraction)>,
) -> bool {
    if upload.total() == 0 || body_len == 0 {
        reports.len() == 0
    } else {
        &&& reports.len() == if completes(upload, sent, body_len) {
            2nat
        } else {
            1
        }
        &&& reports[0].0 == BatchProgressStage::Uploading
        &&& reports[0].1.num() == uploaded(
            upload.base(),
            upload.request(),
            sent as nat,
            body_len as nat,
        )
        &&& reports[0].1.den() == upload.total() * body_len as nat
        &&& completes(upload, sent, body_len) ==> {
            &&& reports[1].0 == BatchProgressStage::Transcribing
            &&& reports[1].1.num() == 0
            &&& reports[1].1.den() == 1
        }
    }
}

/// Whether the whole recording has been sent once `sent` of the `body_len` bytes of this
/// request's body have.
pub open spec fn completes(upload: UploadProgress, sent: u64, body_len: u64) -> bool {
    sent >= body_len && upload.base() + upload.request() >= upload.total()
}

/// The bytes uploaded, each counted `body_len` times: those of the requests before, and
/// the share `sent / body_len` of this request's, at most all of them.
pub open spec fn uploaded(base: nat, request: nat, sent: nat, body_len: nat) -> nat {
    base * body_len + (if sent <= body_len {
        sent
    } else {
        body_len
    }) * request
}

} // verus!
