use batch_upload::duration::Duration;
use batch_upload::fraction::Fraction;
use batch_upload::progress::{
    BatchEvent, BatchProgress, BatchProgressStage, BatchStreamEvent, UploadProgress,
};

fn at(millis: u64) -> Duration {
    Duration::from_millis(millis)
}

fn half() -> Fraction {
    Fraction::new(1, 2)
}

fn shown(event: Option<BatchEvent>) -> Option<(String, Fraction, BatchProgressStage)> {
    event.map(|BatchEvent::BatchResponseStreamed { session_id, event }| {
        let BatchStreamEvent::Progress { percentage, partial_text, stage } = event;
        assert_eq!(partial_text, None);
        (session_id, percentage, stage.unwrap())
    })
}

#[test]
fn first_report_is_told() {
    let mut progress = BatchProgress::new("session".to_string());
    let event = progress.emit(BatchProgressStage::Uploading, half(), at(0));
    assert_eq!(
        shown(event),
        Some(("session".to_string(), half(), BatchProgressStage::Uploading))
    );
}

#[test]
fn reports_are_throttled() {
    let mut progress = BatchProgress::new("s".to_string());
    let stage = BatchProgressStage::Uploading;
    assert!(progress.emit(stage, half(), at(1000)).is_some());
    assert!(progress.emit(stage, half(), at(1000)).is_none());
    assert!(progress.emit(stage, half(), at(1249)).is_none());
    assert!(progress.emit(stage, half(), at(1250)).is_some());
    assert!(progress.emit(stage, half(), at(1499)).is_none());
    assert!(progress.emit(stage, half(), at(900)).is_none());
    assert!(progress.emit(stage, half(), at(1500)).is_some());
}

#[test]
fn start_and_end_are_always_told() {
    let mut progress = BatchProgress::new("s".to_string());
    let stage = BatchProgressStage::Preparing;
    assert!(progress.emit(stage, half(), at(0)).is_some());
    assert!(progress.emit(stage, Fraction::zero(), at(1)).is_some());
    assert!(progress.emit(stage, Fraction::one(), at(2)).is_some());
    assert!(progress.emit(stage, Fraction::new(7, 7), at(3)).is_some());
    assert!(progress.emit(stage, half(), at(4)).is_none());
}

#[test]
fn change_of_stage_is_always_told() {
    let mut progress = BatchProgress::new("s".to_string());
    assert!(progress.emit(BatchProgressStage::Preparing, half(), at(0)).is_some());
    assert!(progress.emit(BatchProgressStage::Uploading, half(), at(1)).is_some());
    assert!(progress.emit(BatchProgressStage::Preparing, half(), at(2)).is_some());
    assert!(progress.emit(BatchProgressStage::Preparing, half(), at(3)).is_none());
}

#[test]
fn more_than_everything_is_shown_as_everything() {
    let mut progress = BatchProgress::new("s".to_string());
    let event = progress.emit(BatchProgressStage::Uploading, Fraction::new(5, 4), at(0));
    assert_eq!(shown(event).unwrap().1, Fraction::one());
    let event = progress.emit(BatchProgressStage::Uploading, Fraction::new(4, 4), at(0));
    assert_eq!(shown(event).unwrap().1, Fraction::new(4, 4));
}

#[test]
fn reports_are_spaced_over_a_fast_link() {
    let mut progress = BatchProgress::new("s".to_string());
    let mut told = Vec::new();
    for i in 1..1000u64 {
        let share = Fraction::new(u128::from(i), 1000);
        if progress.emit(BatchProgressStage::Uploading, share, at(i)).is_some() {
            told.push(i);
        }
    }
    assert_eq!(told, vec![1, 251, 501, 751]);
}

fn uploading(numerator: u128, denominator: u128) -> (BatchProgressStage, Fraction) {
    (BatchProgressStage::Uploading, Fraction::new(numerator, denominator))
}

fn transcribing() -> (BatchProgressStage, Fraction) {
    (BatchProgressStage::Transcribing, Fraction::zero())
}

#[test]
fn whole_upload_reports_its_share() {
    let upload = UploadProgress::whole(Some(1000));
    assert_eq!(upload.report(25, 100), vec![uploading(25_000, 100_000)]);
    assert_eq!(upload.report(100, 100), vec![uploading(100_000, 100_000), transcribing()]);
    assert_eq!(upload.report(150, 100), vec![uploading(100_000, 100_000), transcribing()]);
}

#[test]
fn empty_uploads_report_nothing() {
    assert_eq!(UploadProgress::whole(None).report(5, 10), vec![]);
    assert_eq!(UploadProgress::whole(Some(0)).report(10, 10), vec![]);
    assert_eq!(UploadProgress::whole(Some(10)).report(0, 0), vec![]);
}

#[test]
fn parts_add_up() {
    // Two requests, 30 and 70 of 100 bytes, with bodies of 10 and 20 bytes.
    let first = UploadProgress::part(0, 30, 100);
    let second = UploadProgress::part(30, 70, 100);
    assert_eq!(first.report(5, 10), vec![uploading(150, 1000)]);
    assert_eq!(first.report(10, 10), vec![uploading(300, 1000)]);
    assert_eq!(second.report(0, 20), vec![uploading(600, 2000)]);
    assert_eq!(second.report(10, 20), vec![uploading(1300, 2000)]);
    assert_eq!(second.report(19, 20), vec![uploading(1930, 2000)]);
    assert_eq!(second.report(20, 20), vec![uploading(2000, 2000), transcribing()]);
}

#[test]
fn parts_beyond_the_total_are_shown_as_everything() {
    let upload = UploadProgress::part(80, 70, 100);
    let reports = upload.report(5, 10);
    assert_eq!(reports, vec![uploading(1150, 1000)]);
    let mut progress = BatchProgress::new("s".to_string());
    let (stage, share) = reports[0];
    assert_eq!(shown(progress.emit(stage, share, at(0))).unwrap().1, Fraction::one());
    assert_eq!(upload.report(10, 10), vec![uploading(1500, 1000), transcribing()]);
}

#[test]
fn uploads_at_the_limits() {
    let upload = UploadProgress::part(u64::MAX - 1, 1, u64::MAX);
    let all = u128::from(u64::MAX) * u128::from(u64::MAX);
    assert_eq!(upload.report(u64::MAX, u64::MAX), vec![uploading(all, all), transcribing()]);
}

#[test]
fn settled_fractions() {
    assert!(Fraction::zero().is_settled());
    assert!(Fraction::one().is_settled());
    assert!(Fraction::new(3, 2).is_settled());
    assert!(!half().is_settled());
    assert_eq!(Fraction::new(3, 2).at_most_one(), Fraction::one());
    assert_eq!(half().at_most_one(), half());
}
