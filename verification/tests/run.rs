use batch_upload::duration::Duration;
use batch_upload::failure::BatchFailure;
use batch_upload::fraction::Fraction;
use batch_upload::json::Json;
use batch_upload::moved::{Moved, Offset};
use batch_upload::progress::UploadProgress;
use batch_upload::response::{Alternatives, Channel, Response, Results, Word};
use batch_upload::run::{
    check_supported, direct_batch_outcome, plan_direct_batch, service_for, AdapterKind,
    BatchRunMode, BatchRunOutput, Delivery, SegmentSizes, SegmentedBatch, Transcription,
    SEGMENT_CHANNELS,
};

fn response(text: &'static str) -> Response<f64, &'static str> {
    Response {
        metadata: Json::Null,
        results: Results {
            channels: vec![Channel {
                alternatives: vec![Alternatives {
                    transcript: text.to_string(),
                    confidence: Fraction::one(),
                    words: vec![Word { start: 1.0, end: 2.0, speaker: Some(0), rest: text }],
                }],
            }],
        },
    }
}

fn output(text: &'static str) -> BatchRunOutput<Response<f64, &'static str>> {
    BatchRunOutput {
        session_id: "session".to_string(),
        mode: BatchRunMode::Direct,
        response: response(text),
    }
}

fn timed_out() -> BatchFailure {
    BatchFailure::DirectRequestTimedOut { provider: "groq".to_string(), timeout_seconds: 900 }
}

#[test]
fn only_anarlog_has_a_cap() {
    let anarlog = service_for(AdapterKind::Anarlog);
    assert_eq!(anarlog.max_bytes, Some(512 * 1024 * 1024));
    assert!(!anarlog.uses_upload_limit);
    for kind in [AdapterKind::Deepgram, AdapterKind::DashScope, AdapterKind::OpenAI] {
        let service = service_for(kind);
        assert_eq!(service.max_bytes, None);
        assert!(service.uses_upload_limit);
    }
}

#[test]
fn only_dashscope_is_unsupported() {
    let unsupported =
        BatchFailure::DirectBatchUnsupported { provider: "dashscope".to_string() };
    assert_eq!(
        check_supported(AdapterKind::DashScope, "dashscope".to_string()),
        Err(unsupported)
    );
    for kind in [
        AdapterKind::Anarlog,
        AdapterKind::AquaVoice,
        AdapterKind::Argmax,
        AdapterKind::AssemblyAI,
        AdapterKind::AwsTranscribe,
        AdapterKind::AzureSpeech,
        AdapterKind::Cartesia,
        AdapterKind::Cohere,
        AdapterKind::Deepgram,
        AdapterKind::ElevenLabs,
        AdapterKind::Fireworks,
        AdapterKind::Gladia,
        AdapterKind::GoogleCloud,
        AdapterKind::GoogleGenerativeAi,
        AdapterKind::Groq,
        AdapterKind::Mistral,
        AdapterKind::OpenAI,
        AdapterKind::OpenRouter,
        AdapterKind::Pyannote,
        AdapterKind::RevAi,
        AdapterKind::SiliconFlow,
        AdapterKind::Soniox,
        AdapterKind::Speechmatics,
        AdapterKind::Together,
        AdapterKind::Xai,
        AdapterKind::Zai,
    ] {
        assert_eq!(check_supported(kind, "p".to_string()), Ok(()));
    }
}

#[test]
fn recordings_are_split_where_there_is_a_plan() {
    let minute = Duration::from_secs(60);
    let hour = Some(Duration::from_secs(3600));
    let whole = plan_direct_batch(hour, None);
    assert_eq!(whole.delivery, Delivery::Whole);
    assert_eq!(whole.timeout, Duration::from_secs(7500));
    let split = plan_direct_batch(None, Some(minute));
    assert_eq!(split.delivery, Delivery::Segmented { segment_duration: minute });
    assert_eq!(split.timeout, Duration::from_secs(900));
}

#[test]
fn completed_requests_give_their_response() {
    let outcome = direct_batch_outcome(
        "groq".to_string(),
        "session".to_string(),
        Duration::from_secs(900),
        Transcription::Completed(response("hi")),
    )
    .unwrap();
    assert_eq!(outcome.session_id, "session");
    assert_eq!(outcome.mode, BatchRunMode::Direct);
    assert_eq!(outcome.response.results.channels[0].alternatives[0].transcript, "hi");
}

#[test]
fn responses_are_passed_on_as_they_are() {
    let outcome = direct_batch_outcome(
        "groq".to_string(),
        "session".to_string(),
        Duration::from_secs(900),
        Transcription::Completed(-0.1f64),
    )
    .unwrap();
    assert_eq!(outcome.response, -0.1);
}

#[test]
fn failed_requests_give_their_message() {
    let outcome: Result<BatchRunOutput<()>, BatchFailure> = direct_batch_outcome(
        "groq".to_string(),
        "session".to_string(),
        Duration::from_secs(900),
        Transcription::Failed { message: "No credit left.".to_string() },
    );
    assert_eq!(
        outcome.err(),
        Some(BatchFailure::DirectRequestFailed {
            provider: "groq".to_string(),
            message: "No credit left.".to_string()
        })
    );
}

#[test]
fn late_requests_give_their_timeout() {
    let outcome: Result<BatchRunOutput<()>, BatchFailure> = direct_batch_outcome(
        "groq".to_string(),
        "session".to_string(),
        Duration::from_millis(900_999),
        Transcription::TimedOut,
    );
    assert_eq!(outcome.err(), Some(timed_out()));
}

#[test]
fn segments_are_sent_one_after_the_other() {
    let sizes = SegmentSizes::new(&vec![Some(10), None, Some(30)]).unwrap();
    let mut batch: SegmentedBatch<f64, &'static str> =
        SegmentedBatch::new("session".to_string(), Duration::from_secs(60), sizes);
    assert_eq!(batch.next_upload(), Some(UploadProgress::part(0, 10, 40)));
    batch = batch.answered(Ok(output("one"))).unwrap();
    assert_eq!(batch.next_upload(), Some(UploadProgress::part(10, 0, 40)));
    batch = batch.answered(Ok(output("two"))).unwrap();
    assert_eq!(batch.next_upload(), Some(UploadProgress::part(10, 30, 40)));
    batch = batch.answered(Ok(output("three"))).unwrap();
    assert_eq!(batch.next_upload(), None);
    assert!(batch.speakers_fit());
    let merged = batch.finish();
    assert_eq!(merged.session_id, "session");
    assert_eq!(merged.mode, BatchRunMode::Direct);
    let reading = &merged.response.results.channels[0].alternatives[0];
    assert_eq!(reading.transcript, "one two three");
    let minute = Duration::from_secs(60);
    let at = |index: usize| Moved { read: 1.0, offset: Offset { segment: minute, index } };
    let rows: Vec<(Moved<f64>, Option<usize>)> =
        reading.words.iter().map(|word| (word.start, word.speaker)).collect();
    assert_eq!(rows, vec![(at(0), Some(0)), (at(1), Some(1)), (at(2), Some(2))]);
}

#[test]
fn first_failure_ends_the_batch() {
    let sizes = SegmentSizes::new(&vec![Some(10), Some(20)]).unwrap();
    let batch: SegmentedBatch<f64, &'static str> =
        SegmentedBatch::new("session".to_string(), Duration::from_secs(60), sizes);
    let batch = batch.answered(Ok(output("one"))).unwrap();
    assert_eq!(batch.answered(Err(timed_out())).err(), Some(timed_out()));
}

#[test]
fn sizes_that_do_not_add_up_are_refused() {
    assert!(SegmentSizes::new(&vec![Some(u64::MAX), Some(1)]).is_none());
    assert!(SegmentSizes::new(&vec![Some(u64::MAX), None]).is_some());
    assert!(SegmentSizes::new(&vec![]).is_some());
}

#[test]
fn segments_are_mono() {
    assert_eq!(SEGMENT_CHANNELS, 1);
}
