use batch_upload::duration::Duration;
use batch_upload::failure::BatchFailure;
use batch_upload::fraction::Fraction;
use batch_upload::prepare::{
    begin_upload, check_cap, enforce_cap, AwaitingTempDir, Begun, CapCheck, Encoding,
    PreparedBatchUpload, Recording, ANARLOG_PROXY_MAX_AUDIO_BYTES,
};
use batch_upload::progress::BatchProgressStage;

type Upload = PreparedBatchUpload<&'static str, u32>;

const MIB: u64 = 1024 * 1024;

fn recording(size_bytes: u64) -> Recording {
    Recording { size_bytes, duration: Some(Duration::from_secs(60)), channels: Some(2) }
}

fn begin(force: bool, size_bytes: u64) -> Begun<&'static str, u32> {
    begin_upload("deepgram".to_string(), force, "call.wav", recording(size_bytes))
}

fn awaiting(force: bool, size_bytes: u64) -> AwaitingTempDir<&'static str> {
    match begin(force, size_bytes) {
        Begun::CreateTempDir(awaiting) => awaiting,
        Begun::Ready(upload) => panic!("{upload:?} is sent as it is"),
    }
}

fn encoding(force: bool, size_bytes: u64) -> Encoding<&'static str, u32> {
    awaiting(force, size_bytes).created(7, "tmp/upload.mp3")
}

fn original() -> Upload {
    PreparedBatchUpload::Original("call.wav")
}

fn copy() -> Upload {
    PreparedBatchUpload::Compressed { temp_dir: 7, path: "tmp/upload.mp3" }
}

fn unpreparable() -> BatchFailure {
    BatchFailure::DirectRequestFailed {
        provider: "deepgram".to_string(),
        message: "Anarlog couldn't prepare this large recording for transcription.".to_string(),
    }
}

#[test]
fn small_recordings_are_ready() {
    match begin(false, MIB - 1) {
        Begun::Ready(upload) => assert_eq!(upload, original()),
        Begun::CreateTempDir(_) => panic!("a small recording is encoded"),
    }
}

#[test]
fn force_encodes_small_recordings_too() {
    assert!(matches!(begin(true, 1), Begun::CreateTempDir(_)));
}

#[test]
fn smaller_copies_are_sent() {
    let encoding = encoding(false, 10 * MIB);
    assert_eq!(encoding.kbps_per_channel(), 24);
    assert_eq!(encoding.starting(), (BatchProgressStage::Preparing, Fraction::zero()));
    assert_eq!(
        encoding.encoded(Fraction::new(1, 3)),
        (BatchProgressStage::Preparing, Fraction::new(1, 3))
    );
    assert_eq!(*encoding.path(), "tmp/upload.mp3");
    let measuring = encoding.finished();
    assert_eq!(*measuring.path(), "tmp/upload.mp3");
    assert_eq!(measuring.measured(10 * MIB - 1), copy());
}

#[test]
fn copies_that_are_not_smaller_are_dropped() {
    assert_eq!(encoding(false, 10 * MIB).finished().measured(10 * MIB), original());
}

#[test]
fn forced_copies_are_sent_whatever_their_size() {
    assert_eq!(encoding(true, 10 * MIB).finished().measured(20 * MIB), copy());
}

#[test]
fn failures_fall_back_to_the_recording() {
    let upload: Result<Upload, BatchFailure> = awaiting(false, 10 * MIB).failed();
    assert_eq!(upload, Ok(original()));
    assert_eq!(encoding(false, 10 * MIB).failed(), Ok(original()));
}

#[test]
fn forced_failures_are_failures() {
    let upload: Result<Upload, BatchFailure> = awaiting(true, 10 * MIB).failed();
    assert_eq!(upload, Err(unpreparable()));
    assert_eq!(encoding(true, 10 * MIB).failed(), Err(unpreparable()));
}

#[test]
fn prepared_uploads_know_their_path() {
    assert_eq!(*original().path(), "call.wav");
    assert!(!original().is_compressed());
    assert_eq!(*copy().path(), "tmp/upload.mp3");
    assert!(copy().is_compressed());
}

#[test]
fn files_within_the_cap_are_accepted() {
    assert_eq!(check_cap(original(), 100, 100), CapCheck::Accept(original()));
    assert_eq!(check_cap(copy(), 100, 100), CapCheck::Accept(copy()));
}

#[test]
fn recordings_above_the_cap_are_encoded_by_force() {
    assert_eq!(check_cap(original(), 101, 100), CapCheck::PrepareForced);
}

#[test]
fn copies_above_the_cap_are_measured_again_and_refused() {
    assert_eq!(check_cap(copy(), 101, 100), CapCheck::MeasureAgain(copy()));
    assert_eq!(
        enforce_cap(copy(), 101, 100, "anarlog".to_string()),
        Err(BatchFailure::DirectRequestFailed {
            provider: "anarlog".to_string(),
            message: "This recording is too large for cloud transcription. Split it into smaller files and try again."
                .to_string(),
        })
    );
    assert_eq!(enforce_cap(copy(), 100, 100, "anarlog".to_string()), Ok(copy()));
}

#[test]
fn the_cap_is_half_a_gibibyte() {
    assert_eq!(ANARLOG_PROXY_MAX_AUDIO_BYTES, 512 * MIB);
}
