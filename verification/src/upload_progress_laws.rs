//! What holds of every request body that is watched, said of the request itself.

use vstd::prelude::*;

use crate::text::{decimal_u64, digits_value};
use crate::upload_progress::{
    ascii_text, body_len, body_to_track, content_length_text, is_noted, is_visible, request_len,
    sent_after, text_of, BodySize, ProgressBody,
};

verus! {

/// A body of exact size has that length, whatever the headers say, and with no headers too.
pub proof fn law_exact_size_is_the_length(size: u64, headers: Map<Seq<char>, Seq<Seq<u8>>>)
    ensures
        request_len(Some(BodySize { lower: size, upper: Some(size) }), headers) == Some(size),
{
}

/// A body of exact size is watched, whatever the headers say, exactly where it is at least
/// 64 KiB: from nothing sent to all of it.
pub proof fn law_large_bodies_of_exact_size_are_watched(
    size: u64,
    headers: Map<Seq<char>, Seq<Seq<u8>>>,
)
    ensures
        ({
            let body = BodySize { lower: size, upper: Some(size) };
            let watched = body_to_track(request_len(Some(body), headers));
            &&& size >= 65_536 ==> watched == Some(ProgressBody { sent: 0, total: size })
            &&& size < 65_536 ==> watched is None
        }),
{
}

/// The headers change nothing for a body of exact size, and the bounds change nothing for
/// one without.
pub proof fn law_only_one_of_size_and_headers_counts(
    size: BodySize,
    other: BodySize,
    headers: Map<Seq<char>, Seq<Seq<u8>>>,
    other_headers: Map<Seq<char>, Seq<Seq<u8>>>,
)
    ensures
        size.upper == Some(size.lower) ==> request_len(Some(size), headers) == request_len(
            Some(size),
            other_headers,
        ),
        size.upper != Some(size.lower) && other.upper != Some(other.lower) ==> request_len(
            Some(size),
            headers,
        ) == request_len(Some(other), headers),
{
}

/// The number that decimal digits in ASCII stand for.
pub open spec fn ascii_number(digits: Seq<u8>) -> nat
    decreases digits.len(),
{
    if digits.len() == 0 {
        0
    } else {
        (ascii_number(digits.drop_last()) * 10 + (digits.last() - 48)) as nat
    }
}

/// Whether all the bytes are decimal digits in ASCII.
pub open spec fn all_digits(bytes: Seq<u8>) -> bool {
    forall|i: int| 0 <= i < bytes.len() ==> 48 <= #[trigger] bytes[i] <= 57
}

proof fn lemma_digits_are_read(digits: Seq<u8>)
    requires
        all_digits(digits),
    ensures
        digits_value(ascii_text(digits)) == Some(ascii_number(digits)),
    decreases digits.len(),
{
    if digits.len() > 0 {
        let front = digits.drop_last();
        assert forall|i: int| 0 <= i < front.len() implies 48 <= #[trigger] front[i] <= 57 by {
            assert(48 <= digits[i] <= 57);
        }
        lemma_digits_are_read(front);
        assert(ascii_text(digits).drop_last() =~= ascii_text(front));
        assert(48 <= digits[digits.len() - 1] <= 57);
    }
}

proof fn lemma_other_bytes_are_not_read(bytes: Seq<u8>, at: int)
    requires
        is_visible(bytes),
        0 <= at < bytes.len(),
        !(48 <= bytes[at] <= 57),
    ensures
        digits_value(ascii_text(bytes)) is None,
    decreases bytes.len(),
{
    assert(ascii_text(bytes).drop_last() =~= ascii_text(bytes.drop_last()));
    if at < bytes.len() - 1 {
        let front = bytes.drop_last();
        assert forall|i: int| 0 <= i < front.len() implies (32 <= #[trigger] front[i] < 127
            || front[i] == 9) by {
            assert(32 <= bytes[i] < 127 || bytes[i] == 9);
        }
        lemma_other_bytes_are_not_read(front, at);
    }
}

/// A body without an exact size has the length that the content length header gives in
/// decimal digits, as long as that fits a `u64`; a plus sign before them changes nothing.
pub proof fn law_content_length_is_read(
    size: BodySize,
    headers: Map<Seq<char>, Seq<Seq<u8>>>,
    digits: Seq<u8>,
)
    requires
        size.upper != Some(size.lower),
        headers.dom().contains("content-length"@),
        headers["content-length"@].len() > 0,
        headers["content-length"@][0] == digits || headers["content-length"@][0] == seq![43u8]
            + digits,
        digits.len() > 0,
        all_digits(digits),
    ensures
        ascii_number(digits) <= u64::MAX ==> request_len(Some(size), headers) == Some(
            ascii_number(digits) as u64,
        ),
        ascii_number(digits) > u64::MAX ==> request_len(Some(size), headers) is None,
{
    let bytes = headers["content-length"@][0];
    let text = ascii_text(bytes);
    lemma_digits_are_read(digits);
    assert(48 <= digits[0] <= 57);
    assert forall|i: int| 0 <= i < bytes.len() implies (32 <= #[trigger] bytes[i] < 127
        || bytes[i] == 9) by {
        if bytes == digits {
            assert(48 <= digits[i] <= 57);
        } else if i > 0 {
            assert(48 <= digits[i - 1] <= 57);
        }
    }
    assert(content_length_text(headers) == Some(text));
    if bytes == digits {
        assert(text[0] != '+');
    } else {
        assert(text[0] == '+');
        assert(text.drop_first() =~= ascii_text(digits));
    }
    assert(decimal_u64(text) == if ascii_number(digits) <= u64::MAX {
        Some(ascii_number(digits) as u64)
    } else {
        None
    });
}

/// A body without an exact size is of unknown length where there is no content length
/// header, or where the header holds no digits, or anything but digits after an optional
/// plus sign.
pub proof fn law_other_content_lengths_are_not_read(
    size: BodySize,
    headers: Map<Seq<char>, Seq<Seq<u8>>>,
    at: int,
)
    requires
        size.upper != Some(size.lower),
        headers.dom().contains("content-length"@) ==> {
            let bytes = headers["content-length"@][0];
            ||| bytes.len() == 0
            ||| bytes == seq![43u8]
            ||| 0 <= at < bytes.len() && !(48 <= bytes[at] <= 57) && !(at == 0 && bytes[at] == 43)
        },
    ensures
        request_len(Some(size), headers) is None,
{
    if content_length_text(headers) is Some {
        let bytes = headers["content-length"@][0];
        let text = ascii_text(bytes);
        if bytes.len() > 0 && bytes[0] == 43 {
            assert(text[0] == '+');
            let rest = bytes.drop_first();
            assert(text.drop_first() =~= ascii_text(rest));
            if bytes.len() > 1 {
                assert forall|i: int| 0 <= i < rest.len() implies (32 <= #[trigger] rest[i] < 127
                    || rest[i] == 9) by {
                    assert(32 <= bytes[i + 1] < 127 || bytes[i + 1] == 9);
                }
                lemma_other_bytes_are_not_read(rest, at - 1);
            }
        } else if bytes.len() > 0 {
            assert(32 <= bytes[0] < 127 || bytes[0] == 9);
            assert(text[0] != '+');
            lemma_other_bytes_are_not_read(bytes, at);
        }
    }
}

/// A request without a body is left alone, and so is one whose body is of unknown length.
pub proof fn law_bodies_of_unknown_length_are_not_watched(headers: Map<Seq<char>, Seq<Seq<u8>>>)
    ensures
        request_len(None, headers) is None,
        body_to_track(None) is None,
{
}

/// A body of known length is watched exactly where it is at least 64 KiB, from nothing sent
/// to all of it.
pub proof fn law_large_bodies_are_watched(len: u64)
    ensures
        len >= 65_536 ==> body_to_track(Some(len)) == Some(ProgressBody { sent: 0, total: len }),
        len < 65_536 ==> body_to_track(Some(len)) is None,
{
}

/// An exact size comes before a header, and a header is taken as it reads.
pub proof fn law_exact_size_comes_first(size: u64, header: Option<&str>)
    ensures
        body_len(Some(size), text_of(header)) == Some(size),
        body_len(None, text_of(header)) == match header {
            Some(text) => decimal_u64(text@),
            None => None,
        },
{
}

/// Bytes sent add up, up to what a `u64` can hold, and it makes no difference whether they
/// go out in one frame or in two.
pub proof fn law_bytes_sent_add_up(sent: u64, len: nat, more: nat)
    ensures
        sent + len <= u64::MAX ==> sent_after(sent, len) == sent + len,
        sent + len > u64::MAX ==> sent_after(sent, len) == u64::MAX,
        sent_after(sent_after(sent, len), more) == sent_after(sent, len + more),
{
}

/// Data is reported with all bytes so far and the total, and adds to the bytes so far as
/// many as it holds; anything else is not reported and changes nothing.
pub proof fn law_data_is_reported(
    before: ProgressBody,
    after: ProgressBody,
    data: Option<nat>,
    report: Option<(u64, u64)>,
)
    requires
        is_noted(before, after, data, report),
    ensures
        after.total == before.total,
        data is None ==> report is None && after.sent == before.sent,
        data is Some ==> report == Some((after.sent, before.total)),
        data is Some && before.sent + data->0 <= u64::MAX ==> after.sent == before.sent + data->0,
        data is Some && before.sent + data->0 > u64::MAX ==> after.sent == u64::MAX,
{
}

} // verus!
