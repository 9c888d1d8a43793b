//! How much of a request body has been handed to the transport.

use vstd::prelude::*;

use crate::text::parse_u64;

verus! {

/// Bodies below this size are polling or metadata requests, not the audio.
pub const MIN_TRACKED_BODY_BYTES: u64 = 65_536;

/// The value of a header; what it holds is `header_value_bytes`.
#[verifier::external_type_specification]
#[verifier::external_body]
pub struct ExHeaderValue(http::HeaderValue);

/// Why a header's value is no text; nothing is read of it.
#[verifier::external_type_specification]
#[verifier::external_body]
pub struct ExToStrError(http::header::ToStrError);

/// The headers of a request; what they hold is `header_values`.
#[verifier::external_type_specification]
#[verifier::external_body]
#[verifier::reject_recursive_types(T)]
pub struct ExHeaderMap<T>(http::HeaderMap<T>);

/// A piece of a body; what it holds is `bytes_content`.
#[verifier::external_type_specification]
#[verifier::external_body]
pub struct ExBytes(bytes::Bytes);

/// The bytes that an `http::HeaderValue` holds.
pub uninterp spec fn header_value_bytes(value: http::HeaderValue) -> Seq<u8>;

/// The values that an `http::HeaderMap` holds for each header name, in the order they
/// were added. Names are in lower case.
pub uninterp spec fn header_values(headers: http::HeaderMap) -> Map<Seq<char>, Seq<Seq<u8>>>;

/// The bytes that a `bytes::Bytes` holds.
pub uninterp spec fn bytes_content(bytes: bytes::Bytes) -> Seq<u8>;

/// Whether all the bytes are visible ASCII, spaces or tabs.
pub open spec fn is_visible(bytes: Seq<u8>) -> bool {
    forall|i: int| 0 <= i < bytes.len() ==> (32 <= #[trigger] bytes[i] < 127 || bytes[i] == 9)
}

/// ASCII bytes as characters.
pub open spec fn ascii_text(bytes: Seq<u8>) -> Seq<char> {
    bytes.map_values(|b: u8| b as char)
}

/// `http::HeaderValue::to_str` gives the value as text where all of it is visible ASCII,
/// spaces or tabs, and fails otherwise.
pub assume_specification[ http::HeaderValue::to_str ](value: &http::HeaderValue) -> (r: Result<
    &str,
    http::header::ToStrError,
>)
    ensures
        match r {
            Ok(text) => is_visible(header_value_bytes(*value)) && text@ == ascii_text(
                header_value_bytes(*value),
            ),
            Err(_) => !is_visible(header_value_bytes(*value)),
        },
;

/// `bytes::Bytes::len` gives the number of bytes.
pub assume_specification[ bytes::Bytes::len ](bytes: &bytes::Bytes) -> (r: usize)
    ensures
        r == bytes_content(*bytes).len(),
;

/// `http::HeaderMap::get`, asked for the content length, gives the first value of that
/// header, or `None` where there is none.
#[verifier::external_body]
fn content_length_header(headers: &http::HeaderMap) -> (r: Option<&http::HeaderValue>)
    ensures
        match r {
            Some(value) => {
                &&& header_values(*headers).dom().contains("content-length"@)
                &&& header_values(*headers)["content-length"@].len() > 0
                &&& header_value_bytes(*value) == header_values(*headers)["content-length"@][0]
            },
            None => !header_values(*headers).dom().contains("content-length"@),
        },
{
    headers.get(http::header::CONTENT_LENGTH)
}

/// What a body says of its own size: at least `lower` bytes, and at most `upper` where
/// that is known.
#[derive(Clone, Copy, Debug, PartialEq, Eq)]
pub struct BodySize {
    pub lower: u64,
    pub upper: Option<u64>,
}

impl BodySize {
    /// The size, where the two bounds meet.
    pub open spec fn spec_exact(self) -> Option<u64> {
        if self.upper == Some(self.lower) {
            Some(self.lower)
        } else {
            None
        }
    }

    /// The size, where the two bounds meet.
    pub fn exact(&self) -> (r: Option<u64>)
        ensures
            r == self.spec_exact(),
    {
        match self.upper {
            Some(upper) => if upper == self.lower {
                Some(upper)
            } else {
                None
            },
            None => None,
        }
    }
}

/// The length of a body: its exact size where it has one, and else what the header says.
pub open spec fn body_len(exact: Option<u64>, content_length: Option<Seq<char>>) -> Option<u64> {
    match exact {
        Some(size) => Some(size),
        None => match content_length {
            Some(text) => crate::text::decimal_u64(text),
            None => None,
        },
    }
}

/// The content length that the headers give, as text, where it can be read as text.
pub open spec fn content_length_text(headers: Map<Seq<char>, Seq<Seq<u8>>>) -> Option<Seq<char>> {
    if headers.dom().contains("content-length"@) && is_visible(headers["content-length"@][0]) {
        Some(ascii_text(headers["content-length"@][0]))
    } else {
        None
    }
}

/// What the text of a header, where there is one, says.
pub open spec fn text_of(text: Option<&str>) -> Option<Seq<char>> {
    match text {
        Some(text) => Some(text@),
        None => None,
    }
}

/// The length of a body: its exact size where it has one, and else what the header says.
pub fn known_body_len(exact: Option<u64>, content_length: Option<&str>) -> (r: Option<u64>)
    ensures
        r == body_len(exact, text_of(content_length)),
{
    match exact {
        Some(size) => Some(size),
        None => match content_length {
            Some(text) => parse_u64(text),
            None => None,
        },
    }
}

/// The length of a request's body, where there is a body and its length is known.
pub open spec fn request_len(
    body: Option<BodySize>,
    headers: Map<Seq<char>, Seq<Seq<u8>>>,
) -> Option<u64> {
    match body {
        Some(size) => body_len(size.spec_exact(), content_length_text(headers)),
        None => None,
    }
}

/// The length of a request's body, where there is a body and its length is known.
pub fn request_body_len(body: Option<BodySize>, headers: &http::HeaderMap) -> (r: Option<u64>)
    ensures
        r == request_len(body, header_values(*headers)),
{
    let size: BodySize = match body {
        Some(size) => size,
        None => return None,
    };
    let text: Option<&str> = match content_length_header(headers) {
        Some(value) => match value.to_str() {
            Ok(text) => Some(text),
            Err(_) => None,
        },
        None => None,
    };
    known_body_len(size.exact(), text)
}

/// A body on its way out: how many bytes have been handed to the transport, of how many.
#[derive(Debug, PartialEq, Eq)]
pub struct ProgressBody {
    pub sent: u64,
    pub total: u64,
}

/// Whether `report` is what there is to report of a body, and `after` the body, once it gave
/// out `data` bytes of data, or something that is no data.
pub open spec fn is_noted(
    before: ProgressBody,
    after: ProgressBody,
    data: Option<nat>,
    report: Option<(u64, u64)>,
) -> bool {
    match data {
        Some(len) => {
            &&& after.sent == sent_after(before.sent, len)
            &&& after.total == before.total
            &&& report == Some((after.sent, after.total))
        },
        None => after == before && report is None,
    }
}

/// `sent` and `len` more bytes, held at what a `u64` can hold.
pub open spec fn sent_after(sent: u64, len: nat) -> u64 {
    if sent + len > u64::MAX {
        u64::MAX
    } else {
        (sent + len) as u64
    }
}

impl ProgressBody {
    /// A body of which nothing has been sent.
    pub fn new(total: u64) -> (r: Self)
        ensures
            r.sent == 0,
            r.total == total,
    {
        ProgressBody { sent: 0, total }
    }

    /// Takes note of the next thing that the body gave out. `data` is its data, or `None`
    /// where it was something else: trailers, an error, the end, or nothing yet. Data is
    /// answered with what to report: the bytes sent so far, and the total.
    pub fn frame_polled(&mut self, data: Option<&bytes::Bytes>) -> (r: Option<(u64, u64)>)
        ensures
            match data {
                Some(bytes) => {
                    &&& final(self).sent == sent_after(
                        old(self).sent,
                        bytes_content(*bytes).len(),
                    )
                    &&& final(self).total == old(self).total
                    &&& r == Some((final(self).sent, final(self).total))
                },
                None => *final(self) == *old(self) && r is None,
            },
            is_noted(
                *old(self),
                *final(self),
                match data {
                    Some(bytes) => Some(bytes_content(*bytes).len()),
                    None => None,
                },
                r,
            ),
    {
        match data {
            Some(bytes) => Some(self.record(bytes.len() as u64)),
            None => None,
        }
    }

    /// Takes note of `len` more bytes sent, and says what to report.
    pub fn record(&mut self, len: u64) -> (r: (u64, u64))
        ensures
            final(self).sent == sent_after(old(self).sent, len as nat),
            final(self).total == old(self).total,
            r == (final(self).sent, final(self).total),
    {
        self.sent = self.sent.saturating_add(len);
        (self.sent, self.total)
    }
}

/// Wraps outgoing request bodies so callers can observe how much of an audio upload has
/// left the client. Anything with a known body length gets reported.
#[derive(Debug)]
pub struct UploadProgressMiddleware<F> {
    on_progress: F,
}

impl<F> UploadProgressMiddleware<F> {
    /// What is told the bytes handed to the transport so far and the total body bytes.
    pub closed spec fn spec_on_progress(self) -> F {
        self.on_progress
    }

    /// Reports to `on_progress`.
    pub fn new(on_progress: F) -> (r: Self)
        ensures
            r.spec_on_progress() == on_progress,
    {
        UploadProgressMiddleware { on_progress }
    }

    /// What is told the bytes handed to the transport so far and the total body bytes.
    pub fn on_progress(&self) -> (r: &F)
        ensures
            *r == self.spec_on_progress(),
    {
        &self.on_progress
    }

    /// The body to report on in place of a request's own: one of its length, where that is
    /// known and large enough; `None` where the request is to be sent as it is.
    pub fn tracked_body(&self, body: Option<BodySize>, headers: &http::HeaderMap) -> (r: Option<
        ProgressBody,
    >)
        ensures
            r == body_to_track(request_len(body, header_values(*headers))),
    {
        track(request_body_len(body, headers))
    }
}

/// The body to report on for a body length that may not be known.
pub open spec fn body_to_track(len: Option<u64>) -> Option<ProgressBody> {
    match len {
        Some(total) => if total >= MIN_TRACKED_BODY_BYTES {
            Some(ProgressBody { sent: 0, total })
        } else {
            None
        },
        None => None,
    }
}

/// The body to report on for a body length that may not be known: one of that length,
/// where it is large enough.
pub fn track(len: Option<u64>) -> (r: Option<ProgressBody>)
    ensures
        r == body_to_track(len),
{
    match len {
        Some(total) => if total >= MIN_TRACKED_BODY_BYTES {
            Some(ProgressBody::new(total))
        } else {
            None
        },
        None => None,
    }
}

/// The bytes sent after frames of the given lengths, one after the other.
pub open spec fn sent_after_all(lens: Seq<nat>) -> u64
    decreases lens.len(),
{
    if lens.len() == 0 {
        0
    } else {
        sent_after(sent_after_all(lens.drop_last()), lens.last())
    }
}

/// The lengths together.
pub open spec fn sum(lens: Seq<nat>) -> nat
    decreases lens.len(),
{
    if lens.len() == 0 {
        0
    } else {
        sum(lens.drop_last()) + lens.last()
    }
}

/// What is reported as sent is what the frames hold together, as long as that fits.
pub proof fn law_sent_is_the_sum_of_frames(lens: Seq<nat>)
    ensures
        sent_after_all(lens) == if sum(lens) > u64::MAX {
            u64::MAX as nat
        } else {
            sum(lens)
        },
    decreases lens.len(),
{
    if lens.len() > 0 {
        law_sent_is_the_sum_of_frames(lens.drop_last());
    }
}

/// Reports never go back: what was reported after fewer frames is no more than what is
/// reported after more.
pub proof fn law_sent_never_goes_back(lens: Seq<nat>, fewer: int, more: int)
    requires
        0 <= fewer <= more <= lens.len(),
    ensures
        sent_after_all(lens.take(fewer)) <= sent_after_all(lens.take(more)),
    decreases more,
{
    if fewer < more {
        assert(lens.take(more).drop_last() == lens.take(more - 1));
        law_sent_never_goes_back(lens, fewer, more - 1);
    }
}

/// The last report of a body whose frames hold as many bytes as it said is that all of it
/// was sent.
pub proof fn law_whole_body_is_reported(body: ProgressBody, len: u64, lens: Seq<nat>)
    requires
        body_to_track(Some(len)) == Some(body),
        sum(lens) == len,
    ensures
        sent_after_all(lens) == body.total,
{
    law_sent_is_the_sum_of_frames(lens);
}

/// A request is left alone exactly where it has no body, or none of known length, or one
/// below the tracked size.
pub proof fn law_small_or_unknown_bodies_are_left_alone(
    body: Option<BodySize>,
    headers: Map<Seq<char>, Seq<Seq<u8>>>,
)
    ensures
        body_to_track(request_len(body, headers)) is None <==> {
            ||| request_len(body, headers) is None
            ||| request_len(body, headers)->0 < MIN_TRACKED_BODY_BYTES
        },
        body is None ==> request_len(body, headers) is None,
{
}

} // verus!
