use batch_upload::upload_progress::{
    known_body_len, request_body_len, track, BodySize, ProgressBody, UploadProgressMiddleware,
};
use bytes::Bytes;
use http::header::CONTENT_LENGTH;
use http::{HeaderMap, HeaderValue};

const STREAM: BodySize = BodySize { lower: 0, upper: None };

fn headers(content_length: &[u8]) -> HeaderMap {
    let mut headers = HeaderMap::new();
    headers.insert(CONTENT_LENGTH, HeaderValue::from_bytes(content_length).unwrap());
    headers
}

fn post_with_progress(body: Vec<u8>) -> Vec<(u64, u64)> {
    let middleware = UploadProgressMiddleware::new("ui");
    let headers = headers(body.len().to_string().as_bytes());
    let mut seen = Vec::new();
    if let Some(mut outgoing) = middleware.tracked_body(Some(STREAM), &headers) {
        for chunk in body.chunks(50 * 1024) {
            seen.extend(outgoing.frame_polled(Some(&Bytes::copy_from_slice(chunk))));
        }
        seen.extend(outgoing.frame_polled(None));
    }
    seen
}

#[test]
fn reports_bytes_sent_against_content_length() {
    let total = 200 * 1024;
    let progress = post_with_progress(vec![b'a'; total]);

    assert!(!progress.is_empty());
    assert!(progress.iter().all(|(_, seen_total)| *seen_total == total as u64));
    assert!(progress.windows(2).all(|pair| pair[0].0 <= pair[1].0));
    assert_eq!(progress.last().unwrap().0, total as u64);
    assert_eq!(progress[0], (50 * 1024, 200 * 1024));
    assert_eq!(progress.len(), 4);
}

#[test]
fn ignores_small_request_bodies() {
    let progress = post_with_progress(vec![b'a'; 1024]);

    assert!(progress.is_empty());
}

#[test]
fn tracks_from_the_least_size_on() {
    assert_eq!(track(None), None);
    assert_eq!(track(Some(64 * 1024 - 1)), None);
    assert_eq!(track(Some(64 * 1024)), Some(ProgressBody { sent: 0, total: 65_536 }));
}

#[test]
fn exact_size_comes_before_the_header() {
    let exact = BodySize { lower: 7, upper: Some(7) };
    assert_eq!(exact.exact(), Some(7));
    assert_eq!(request_body_len(Some(exact), &headers(b"200")), Some(7));
    assert_eq!(request_body_len(Some(exact), &HeaderMap::new()), Some(7));
}

#[test]
fn inexact_sizes_leave_it_to_the_header() {
    let inexact = BodySize { lower: 7, upper: Some(8) };
    assert_eq!(inexact.exact(), None);
    assert_eq!(request_body_len(Some(inexact), &headers(b"200")), Some(200));
    assert_eq!(request_body_len(Some(STREAM), &headers(b"200")), Some(200));
    assert_eq!(request_body_len(Some(STREAM), &HeaderMap::new()), None);
}

#[test]
fn no_body_has_no_length() {
    assert_eq!(request_body_len(None, &headers(b"200")), None);
}

#[test]
fn first_of_several_lengths_counts() {
    let mut several = headers(b"10");
    several.append(CONTENT_LENGTH, HeaderValue::from_static("20"));
    assert_eq!(request_body_len(Some(STREAM), &several), Some(10));
}

#[test]
fn other_headers_are_no_length() {
    let mut other = HeaderMap::new();
    other.insert(http::header::AGE, HeaderValue::from_static("20"));
    assert_eq!(request_body_len(Some(STREAM), &other), None);
}

#[test]
fn unreadable_lengths_are_unknown() {
    assert_eq!(request_body_len(Some(STREAM), &headers(b"")), None);
    assert_eq!(request_body_len(Some(STREAM), &headers(b"twelve")), None);
    assert_eq!(request_body_len(Some(STREAM), &headers(b" 12")), None);
    assert_eq!(request_body_len(Some(STREAM), &headers(b"1\t2")), None);
    assert_eq!(request_body_len(Some(STREAM), &headers(b"-12")), None);
    assert_eq!(request_body_len(Some(STREAM), &headers(b"12\xff")), None);
    assert_eq!(request_body_len(Some(STREAM), &headers(b"18446744073709551616")), None);
}

#[test]
fn decimal_lengths() {
    assert_eq!(known_body_len(None, Some("0")), Some(0));
    assert_eq!(known_body_len(None, Some("+12")), Some(12));
    assert_eq!(known_body_len(None, Some("+")), None);
    assert_eq!(known_body_len(None, Some("0012")), Some(12));
    assert_eq!(known_body_len(None, Some("18446744073709551615")), Some(u64::MAX));
    assert_eq!(known_body_len(None, Some("1_000")), None);
    assert_eq!(known_body_len(Some(3), Some("12")), Some(3));
    assert_eq!(known_body_len(None, None), None);
}

#[test]
fn sent_bytes_saturate() {
    let mut body = ProgressBody::new(100);
    assert_eq!(body.record(u64::MAX), (u64::MAX, 100));
    assert_eq!(body.record(1), (u64::MAX, 100));
}

#[test]
fn frames_without_data_are_not_reported() {
    let mut body = ProgressBody::new(100);
    assert_eq!(body.frame_polled(None), None);
    assert_eq!(body.frame_polled(Some(&Bytes::from_static(b"abc"))), Some((3, 100)));
    assert_eq!(body.frame_polled(None), None);
    assert_eq!(body, ProgressBody { sent: 3, total: 100 });
}

#[test]
fn middleware_keeps_its_callback() {
    let middleware = UploadProgressMiddleware::new(7u8);
    assert_eq!(*middleware.on_progress(), 7);
}
