use batch_upload::duration::Duration;
use batch_upload::encode::{total_frames, Block, EncodeError, LastBlocks, UploadEncoding};
use batch_upload::fraction::Fraction;

/// All blocks of the audio, and all progress that is reported.
fn encode(
    channels: u16,
    total: Option<usize>,
    samples: &[i16],
    silence: i16,
) -> (Vec<Block>, Vec<Fraction>) {
    let mut encoding = UploadEncoding::start(channels, total).ok().unwrap();
    let mut blocks = Vec::new();
    let mut progress = Vec::new();
    for sample in samples {
        if let Some(full) = encoding.push(*sample) {
            blocks.push(full.block);
            progress.extend(full.progress);
        }
    }
    let LastBlocks { full, rest, progress: last } = encoding.finish(silence);
    if let Some(full) = full {
        blocks.push(full.block);
        progress.extend(full.progress);
    }
    blocks.push(rest);
    progress.extend(last);
    (blocks, progress)
}

fn ramp(len: usize) -> Vec<i16> {
    (0..len).map(|i| (i % 30_000) as i16).collect()
}

fn mono(block: &Block) -> Vec<i16> {
    match block {
        Block::Mono(pcm) => pcm.clone(),
        Block::Stereo { .. } => panic!("a stereo block"),
    }
}

fn stereo(block: &Block) -> (Vec<i16>, Vec<i16>) {
    match block {
        Block::Mono(_) => panic!("a mono block"),
        Block::Stereo { left, right } => (left.clone(), right.clone()),
    }
}

#[test]
fn other_channel_counts_are_refused() {
    for count in [0, 3, 6] {
        assert_eq!(
            UploadEncoding::start(count, None).err(),
            Some(EncodeError::UnsupportedChannelCount(count))
        );
    }
}

#[test]
fn mono_audio_comes_in_blocks() {
    let samples = ramp(10_000);
    let (blocks, _) = encode(1, None, &samples, 0);
    let sizes: Vec<usize> = blocks.iter().map(|block| mono(block).len()).collect();
    assert_eq!(sizes, vec![4096, 4096, 1808]);
    let glued: Vec<i16> = blocks.iter().flat_map(mono).collect();
    assert_eq!(glued, samples);
}

#[test]
fn full_mono_blocks_leave_an_empty_rest() {
    let (blocks, _) = encode(1, None, &ramp(4096), 0);
    assert_eq!(blocks.len(), 2);
    assert_eq!(mono(&blocks[0]), ramp(4096));
    assert_eq!(mono(&blocks[1]), Vec::<i16>::new());
}

#[test]
fn no_audio_is_one_empty_block() {
    let (blocks, progress) = encode(1, Some(10), &[], 0);
    assert_eq!(blocks, vec![Block::Mono(vec![])]);
    assert_eq!(progress, vec![Fraction::new(10, 10)]);
}

#[test]
fn stereo_audio_keeps_both_channels() {
    let samples = ramp(2 * 5000);
    let (blocks, _) = encode(2, None, &samples, 0);
    assert_eq!(blocks.len(), 2);
    let mut left = Vec::new();
    let mut right = Vec::new();
    for block in &blocks {
        let (l, r) = stereo(block);
        assert_eq!(l.len(), r.len());
        left.extend(l);
        right.extend(r);
    }
    assert_eq!(left, samples.iter().copied().step_by(2).collect::<Vec<_>>());
    assert_eq!(right, samples.iter().copied().skip(1).step_by(2).collect::<Vec<_>>());
}

#[test]
fn last_frame_is_padded_with_silence() {
    let (blocks, _) = encode(2, None, &[1, 2, 3], 9);
    assert_eq!(blocks, vec![Block::Stereo { left: vec![1, 3], right: vec![2, 9] }]);
}

#[test]
fn padding_can_complete_a_block() {
    let samples = ramp(2 * 4096 - 1);
    let (blocks, progress) = encode(2, Some(4096), &samples, 9);
    assert_eq!(blocks.len(), 2);
    let (left, right) = stereo(&blocks[0]);
    assert_eq!(left.len(), 4096);
    assert_eq!(right.last(), Some(&9));
    assert_eq!(stereo(&blocks[1]), (vec![], vec![]));
    assert_eq!(progress, vec![Fraction::new(4096, 4096), Fraction::new(4096, 4096)]);
}

#[test]
fn progress_rises_to_one() {
    let (_, progress) = encode(1, Some(10_000), &ramp(10_000), 0);
    assert_eq!(
        progress,
        vec![
            Fraction::new(4096, 10_000),
            Fraction::new(8192, 10_000),
            Fraction::new(10_000, 10_000)
        ]
    );
}

#[test]
fn progress_is_held_at_one() {
    let (_, progress) = encode(1, Some(5000), &ramp(10_000), 0);
    assert_eq!(
        progress,
        vec![Fraction::new(4096, 5000), Fraction::new(5000, 5000), Fraction::new(5000, 5000)]
    );
}

#[test]
fn unknown_length_reports_nothing() {
    assert_eq!(encode(1, None, &ramp(10_000), 0).1, vec![]);
    assert_eq!(encode(1, Some(0), &ramp(10_000), 0).1, vec![]);
}

#[test]
fn frames_of_a_length_of_audio() {
    assert_eq!(total_frames(Some(Duration::from_secs(4)), 16_000), Some(64_000));
    assert_eq!(total_frames(Some(Duration::from_millis(1)), 44_100), Some(45));
    assert_eq!(total_frames(Some(Duration::from_nanos_saturating(1)), 16_000), Some(1));
    assert_eq!(total_frames(Some(Duration::from_secs(0)), 16_000), None);
    assert_eq!(total_frames(Some(Duration::from_secs(4)), 0), None);
    assert_eq!(total_frames(None, 16_000), None);
    assert_eq!(
        total_frames(Some(Duration::from_secs(u64::MAX)), u32::MAX),
        Some(usize::MAX)
    );
}

/// A tone of 440 Hz, the second channel half as loud as the first, its samples interleaved.
fn tone(channels: u16, seconds: u32) -> Vec<i16> {
    let sample_rate: u32 = 16_000;
    let mut samples = Vec::new();
    for frame in 0..sample_rate * seconds {
        let sample =
            ((frame as f32 / sample_rate as f32) * 440.0 * std::f32::consts::TAU).sin();
        for channel in 0..channels {
            let gain = if channel == 0 { 0.5 } else { 0.25 };
            samples.push((sample * gain * i16::MAX as f32) as i16);
        }
    }
    samples
}

#[test]
fn shrinks_stereo_audio_and_keeps_both_channels() {
    let samples = tone(2, 4);
    let total = total_frames(Some(Duration::from_secs(4)), 16_000);
    assert_eq!(total, Some(64_000));
    let (blocks, progress) = encode(2, total, &samples, 0);

    let mut left = Vec::new();
    let mut right = Vec::new();
    for block in &blocks {
        let (l, r) = stereo(block);
        left.extend(l);
        right.extend(r);
    }
    assert_eq!(left.len(), 64_000);
    assert_eq!(right.len(), 64_000);
    assert_eq!(left, samples.iter().copied().step_by(2).collect::<Vec<_>>());
    assert_eq!(right, samples.iter().copied().skip(1).step_by(2).collect::<Vec<_>>());
    assert_ne!(left, right);

    let shares: Vec<f64> = progress
        .iter()
        .map(|share| share.numerator() as f64 / share.denominator() as f64)
        .collect();
    assert!(shares.windows(2).all(|pair| pair[0] <= pair[1]));
    assert_eq!(shares.last().copied(), Some(1.0));
}

#[test]
fn encodes_mono_audio() {
    let samples = tone(1, 2);
    let total = total_frames(Some(Duration::from_secs(2)), 16_000);
    assert_eq!(total, Some(32_000));
    let (blocks, _) = encode(1, total, &samples, 0);
    assert!(blocks.iter().all(|block| matches!(block, Block::Mono(_))));
    let glued: Vec<i16> = blocks.iter().flat_map(mono).collect();
    assert_eq!(glued.len(), 32_000);
    assert_eq!(glued, samples);
}
