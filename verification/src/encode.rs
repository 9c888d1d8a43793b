//! Cutting audio into the blocks that an encoder is fed.

use vstd::prelude::*;

use crate::duration::{Duration, MAX_NANOS};
use crate::fraction::Fraction;

verus! {

/// How many frames an encoder is fed at a time.
pub const ENCODE_FRAMES: usize = 4096;

/// Why audio cannot be encoded.
#[derive(Debug, PartialEq, Eq)]
pub enum EncodeError {
    UnsupportedChannelCount(u16),
}

/// A run of frames, one sample of each channel for every frame.
#[derive(Debug, PartialEq, Eq)]
pub enum Block {
    Mono(Vec<i16>),
    Stereo { left: Vec<i16>, right: Vec<i16> },
}

impl Block {
    /// The samples of the first channel.
    pub open spec fn left(self) -> Seq<i16> {
        match self {
            Block::Mono(pcm) => pcm@,
            Block::Stereo { left, .. } => left@,
        }
    }

    /// The samples of the second channel; none for mono.
    pub open spec fn right(self) -> Seq<i16> {
        match self {
            Block::Mono(_) => Seq::empty(),
            Block::Stereo { right, .. } => right@,
        }
    }
}

/// A block to encode, and how far along the encoder then is, where that is known.
#[derive(Debug)]
pub struct FullBlock {
    pub block: Block,
    pub progress: Option<Fraction>,
}

/// What is left to encode when the audio is over: a last full block, where the padding of
/// the last frame completes one, and then what is left, after which the encoder is
/// flushed. `progress` is what to report when all of it has been written.
#[derive(Debug)]
pub struct LastBlocks {
    pub full: Option<FullBlock>,
    pub rest: Block,
    pub progress: Option<Fraction>,
}

/// The samples of the first channel of interleaved audio.
pub open spec fn left_of(stereo: bool, samples: Seq<i16>) -> Seq<i16> {
    if stereo {
        Seq::new(((samples.len() + 1) / 2) as nat, |frame: int| samples[2 * frame])
    } else {
        samples
    }
}

/// The samples of the second channel of interleaved audio; none for mono.
pub open spec fn right_of(stereo: bool, samples: Seq<i16>) -> Seq<i16> {
    if stereo {
        Seq::new(samples.len() / 2, |frame: int| samples[2 * frame + 1])
    } else {
        Seq::empty()
    }
}

/// Whether the last frame of interleaved audio lacks its second sample.
pub open spec fn is_cut_short(stereo: bool, samples: Seq<i16>) -> bool {
    stereo && samples.len() % 2 == 1
}

/// Interleaved audio with `silence` for a sample that the last frame lacks.
pub open spec fn padded(stereo: bool, samples: Seq<i16>, silence: i16) -> Seq<i16> {
    if is_cut_short(stereo, samples) {
        samples.push(silence)
    } else {
        samples
    }
}

/// Whether `progress` says that `frames` of the frames are encoded, at most all of them;
/// it says nothing where their number is not known.
pub open spec fn tells_progress(
    progress: Option<Fraction>,
    frames: nat,
    total_frames: Option<usize>,
) -> bool {
    match total_frames {
        Some(total) => {
            &&& progress matches Some(share)
            &&& share.num() == if frames <= total {
                frames
            } else {
                total as nat
            }
            &&& share.den() == total
        },
        None => progress is None,
    }
}

/// The number of frames of audio that is `nanos` nanoseconds long, the last one counted
/// whole.
pub open spec fn frame_count(nanos: nat, sample_rate: nat) -> nat {
    ((nanos * sample_rate + 999_999_999) / 1_000_000_000) as nat
}

/// The number of frames of audio of the given length, held at what a `usize` can hold;
/// `None` where the length is not known or there are none.
pub fn total_frames(duration: Option<Duration>, sample_rate: u32) -> (r: Option<usize>)
    ensures
        match duration {
            Some(duration) => {
                let frames = frame_count(duration@, sample_rate as nat);
                r == if frames == 0 {
                    None
                } else if frames > usize::MAX {
                    Some(usize::MAX)
                } else {
                    Some(frames as usize)
                }
            },
            None => r is None,
        },
        is_total(r, duration, sample_rate),
{
    let nanos: u128 = match duration {
        Some(duration) => duration.as_nanos(),
        None => return None,
    };
    assert(nanos * sample_rate <= MAX_NANOS * u32::MAX) by (nonlinear_arith)
        requires
            nanos <= MAX_NANOS,
            sample_rate <= u32::MAX,
    ;
    let frames: u128 = (nanos * sample_rate as u128 + 999_999_999) / 1_000_000_000;
    if frames == 0 {
        None
    } else if frames > usize::MAX as u128 {
        Some(usize::MAX)
    } else {
        Some(frames as usize)
    }
}

/// Whether `frames` is the number of frames of audio of the given length.
pub open spec fn is_total(
    frames: Option<usize>,
    duration: Option<Duration>,
    sample_rate: u32,
) -> bool {
    match duration {
        Some(duration) => {
            let count = frame_count(duration@, sample_rate as nat);
            match frames {
                Some(frames) => {
                    &&& count > 0
                    &&& frames == if count <= usize::MAX {
                        count
                    } else {
                        usize::MAX as nat
                    }
                },
                None => count == 0,
            }
        },
        None => frames is None,
    }
}

/// Audio on its way into an encoder. Channel layout is preserved so multichannel providers
/// keep their per-channel speaker attribution.
pub struct UploadEncoding {
    stereo: bool,
    left: Vec<i16>,
    right: Vec<i16>,
    frames: usize,
    total_frames: Option<usize>,
    taken: Ghost<Seq<i16>>,
    written: Ghost<nat>,
}

impl UploadEncoding {
    /// Whether there are two channels.
    pub closed spec fn stereo(self) -> bool {
        self.stereo
    }

    /// All samples so far, interleaved.
    pub closed spec fn samples(self) -> Seq<i16> {
        self.taken@
    }

    /// How many frames have been given out in full blocks.
    pub closed spec fn written(self) -> nat {
        self.written@
    }

    /// The number of frames there will be, where that is known.
    pub closed spec fn total(self) -> Option<usize> {
        self.total_frames
    }

    /// What is held back is what has not been given out: less than a full block.
    pub closed spec fn wf(self) -> bool {
        &&& self.written@ % (ENCODE_FRAMES as nat) == 0
        &&& self.written@ <= left_of(self.stereo, self.taken@).len()
        &&& self.written@ <= right_of(self.stereo, self.taken@).len() || !self.stereo
        &&& self.left@ == left_of(self.stereo, self.taken@).skip(self.written@ as int)
        &&& self.right@ == if self.stereo {
            right_of(self.stereo, self.taken@).skip(self.written@ as int)
        } else {
            Seq::empty()
        }
        &&& if self.stereo {
            self.right@.len() < ENCODE_FRAMES
        } else {
            self.left@.len() < ENCODE_FRAMES
        }
        &&& self.frames == if self.written@ > usize::MAX {
            usize::MAX as nat
        } else {
            self.written@
        }
        &&& self.total_frames is Some ==> self.total_frames->0 > 0
    }

    /// Audio with one or two channels; any other number is refused. `total_frames` is the
    /// number of frames there will be, where that is known; zero counts as not known.
    pub fn start(channels: u16, total_frames: Option<usize>) -> (r: Result<Self, EncodeError>)
        ensures
            match r {
                Ok(encoding) => {
                    &&& channels == 1 || channels == 2
                    &&& encoding.wf()
                    &&& encoding.stereo() == (channels == 2)
                    &&& encoding.samples() == Seq::<i16>::empty()
                    &&& encoding.written() == 0
                    &&& encoding.total() == if total_frames == Some(0usize) {
                        None
                    } else {
                        total_frames
                    }
                },
                Err(error) => {
                    &&& channels != 1 && channels != 2
                    &&& error == EncodeError::UnsupportedChannelCount(channels)
                },
            },
            is_start(r, channels, total_frames),
    {
        if channels != 1 && channels != 2 {
            return Err(EncodeError::UnsupportedChannelCount(channels));
        }
        let known: Option<usize> = match total_frames {
            Some(frames) => if frames > 0 {
                Some(frames)
            } else {
                None
            },
            None => None,
        };
        let stereo: bool = channels == 2;
        let r: UploadEncoding = UploadEncoding {
            stereo,
            left: Vec::new(),
            right: Vec::new(),
            frames: 0,
            total_frames: known,
            taken: Ghost(Seq::empty()),
            written: Ghost(0),
        };
        assert(left_of(stereo, r.taken@).skip(0) =~= Seq::empty());
        assert(right_of(stereo, r.taken@).skip(0) =~= Seq::empty());
        Ok(r)
    }

    /// How far along the encoder is after `frames` frames, where that is known.
    fn progress(&self, frames: usize) -> (r: Option<Fraction>)
        requires
            self.wf(),
        ensures
            tells_progress(r, frames as nat, self.total()),
    {
        match self.total_frames {
            Some(total) => Some(
                Fraction::new(
                    if frames <= total {
                        frames as u128
                    } else {
                        total as u128
                    },
                    total as u128,
                ),
            ),
            None => None,
        }
    }

    /// Takes the next sample. Gives the next block where the sample completes one.
    pub fn push(&mut self, sample: i16) -> (r: Option<FullBlock>)
        requires
            old(self).wf(),
        ensures
            final(self).wf(),
            final(self).stereo() == old(self).stereo(),
            final(self).total() == old(self).total(),
            final(self).samples() == old(self).samples().push(sample),
            is_next_block(
                r,
                old(self).stereo(),
                final(self).samples(),
                old(self).written(),
                final(self).written(),
                old(self).total(),
            ),
    {
        let ghost before = self.taken@;
        let ghost after = before.push(sample);
        let ghost at = self.written@ as int;
        proof {
            lemma_push(self.stereo, before, sample);
        }
        if self.stereo && self.left.len() == self.right.len() {
            self.left.push(sample);
            self.taken = Ghost(after);
            assert(self.left@ =~= left_of(true, after).skip(at));
            assert(self.right@ =~= right_of(true, after).skip(at));
            return None;
        }
        if self.stereo {
            self.right.push(sample);
        } else {
            self.left.push(sample);
        }
        self.taken = Ghost(after);
        assert(self.left@ =~= left_of(self.stereo, after).skip(at));
        assert(self.stereo ==> self.right@ =~= right_of(true, after).skip(at));
        if self.left.len() < ENCODE_FRAMES {
            return None;
        }
        Some(self.take_block())
    }

    /// Gives out what is held back, which is a full block.
    fn take_block(&mut self) -> (r: FullBlock)
        requires
            old(self).left@ == left_of(old(self).stereo, old(self).taken@).skip(
                old(self).written@ as int,
            ),
            old(self).left@.len() == ENCODE_FRAMES,
            old(self).written@ <= left_of(old(self).stereo, old(self).taken@).len(),
            old(self).written@ <= right_of(old(self).stereo, old(self).taken@).len() || !old(
                self,
            ).stereo,
            old(self).written@ % (ENCODE_FRAMES as nat) == 0,
            old(self).right@ == if old(self).stereo {
                right_of(old(self).stereo, old(self).taken@).skip(old(self).written@ as int)
            } else {
                Seq::empty()
            },
            old(self).stereo ==> old(self).right@.len() == ENCODE_FRAMES,
            old(self).frames == if old(self).written@ > usize::MAX {
                usize::MAX as nat
            } else {
                old(self).written@
            },
            old(self).total_frames is Some ==> old(self).total_frames->0 > 0,
        ensures
            final(self).wf(),
            final(self).stereo == old(self).stereo,
            final(self).taken@ == old(self).taken@,
            final(self).total_frames == old(self).total_frames,
            final(self).written@ == old(self).written@ + ENCODE_FRAMES,
            r.block.left() == old(self).left@,
            r.block.right() == old(self).right@,
            r.block is Stereo == old(self).stereo,
            tells_progress(r.progress, final(self).written@, old(self).total_frames),
    {
        let mut left: Vec<i16> = Vec::new();
        let mut right: Vec<i16> = Vec::new();
        std::mem::swap(&mut left, &mut self.left);
        std::mem::swap(&mut right, &mut self.right);
        self.frames = self.frames.saturating_add(left.len());
        proof {
            let written = (self.written@ + ENCODE_FRAMES) as nat;
            assert(left_of(self.stereo, self.taken@).skip(written as int) =~= Seq::empty());
            if self.stereo {
                assert(right_of(self.stereo, self.taken@).skip(written as int) =~= Seq::empty());
            }
        }
        self.written = Ghost((self.written@ + ENCODE_FRAMES) as nat);
        let block: Block = if self.stereo {
            Block::Stereo { left, right }
        } else {
            Block::Mono(left)
        };
        FullBlock { block, progress: self.progress(self.frames) }
    }

    /// The audio is over. A sample that the last frame lacks is taken to be `silence`.
    pub fn finish(self, silence: i16) -> (r: LastBlocks)
        requires
            self.wf(),
        ensures
            ({
                let samples = padded(self.stereo(), self.samples(), silence);
                let written = (self.written() + if r.full is Some {
                    ENCODE_FRAMES as nat
                } else {
                    0
                }) as nat;
                &&& is_next_block(
                    r.full,
                    self.stereo(),
                    samples,
                    self.written(),
                    written,
                    self.total(),
                )
                &&& r.rest.left() == left_of(self.stereo(), samples).skip(written as int)
                &&& r.rest.right() == if self.stereo() {
                    right_of(self.stereo(), samples).skip(written as int)
                } else {
                    Seq::empty()
                }
                &&& r.rest is Stereo == self.stereo()
                &&& r.rest.left().len() < ENCODE_FRAMES
                &&& tells_progress(r.progress, usize::MAX as nat, self.total())
            }),
            is_end(r, self.stereo(), self.samples(), self.written(), silence, self.total()),
    {
        let mut encoding: UploadEncoding = self;
        let progress: Option<Fraction> = encoding.progress(usize::MAX);
        let full: Option<FullBlock> = if encoding.stereo && encoding.left.len()
            > encoding.right.len() {
            encoding.push(silence)
        } else {
            None
        };
        let rest: Block = if encoding.stereo {
            Block::Stereo { left: encoding.left, right: encoding.right }
        } else {
            Block::Mono(encoding.left)
        };
        LastBlocks { full, rest, progress }
    }
}

/// Whether `encoding` is what audio with that many channels starts as.
pub open spec fn is_start(
    encoding: Result<UploadEncoding, EncodeError>,
    channels: u16,
    total_frames: Option<usize>,
) -> bool {
    match encoding {
        Ok(encoding) => {
            &&& channels == 1 || channels == 2
            &&& encoding.stereo() == (channels == 2)
            &&& encoding.samples().len() == 0
            &&& encoding.written() == 0
            &&& match total_frames {
                Some(total) => encoding.total() == if total > 0 {
                    Some(total)
                } else {
                    None
                },
                None => encoding.total() is None,
            }
        },
        Err(EncodeError::UnsupportedChannelCount(count)) => {
            &&& count == channels
            &&& channels != 1 && channels != 2
        },
    }
}

/// Whether `last` is what is left to give out of the audio after `written` frames, once it is
/// over.
pub open spec fn is_end(
    last: LastBlocks,
    stereo: bool,
    samples: Seq<i16>,
    written: nat,
    silence: i16,
    total_frames: Option<usize>,
) -> bool {
    let all = padded(stereo, samples, silence);
    let given = (written + if last.full is Some {
        ENCODE_FRAMES as nat
    } else {
        0
    }) as nat;
    &&& is_next_block(last.full, stereo, all, written, given, total_frames)
    &&& last.rest is Stereo == stereo
    &&& last.rest.left() == left_of(stereo, all).skip(given as int)
    &&& last.rest.right() == if stereo {
        right_of(stereo, all).skip(given as int)
    } else {
        Seq::empty()
    }
    &&& last.rest.left().len() < ENCODE_FRAMES
    &&& tells_progress(last.progress, usize::MAX as nat, total_frames)
}

/// Whether `block` is what there is to give out next: the frames from `before` to `after`
/// of the audio, a full block of them, where the audio has that many, and else nothing.
pub open spec fn is_next_block(
    block: Option<FullBlock>,
    stereo: bool,
    samples: Seq<i16>,
    before: nat,
    after: nat,
    total_frames: Option<usize>,
) -> bool {
    let complete = if stereo {
        right_of(stereo, samples).len()
    } else {
        samples.len()
    };
    &&& block is Some <==> complete >= before + ENCODE_FRAMES
    &&& match block {
        Some(full) => {
            &&& after == before + ENCODE_FRAMES
            &&& full.block is Stereo == stereo
            &&& full.block.left() == left_of(stereo, samples).subrange(before as int, after as int)
            &&& stereo ==> full.block.right() == right_of(stereo, samples).subrange(
                before as int,
                after as int,
            )
            &&& tells_progress(full.progress, after, total_frames)
        },
        None => after == before,
    }
}

/// The channels of the audio with one more sample.
proof fn lemma_push(stereo: bool, samples: Seq<i16>, sample: i16)
    ensures
        !stereo || samples.len() % 2 == 0 ==> left_of(stereo, samples.push(sample)) == left_of(
            stereo,
            samples,
        ).push(sample),
        stereo && samples.len() % 2 == 1 ==> left_of(stereo, samples.push(sample)) == left_of(
            stereo,
            samples,
        ),
        stereo && samples.len() % 2 == 1 ==> right_of(stereo, samples.push(sample)) == right_of(
            stereo,
            samples,
        ).push(sample),
        !stereo || samples.len() % 2 == 0 ==> right_of(stereo, samples.push(sample)) == right_of(
            stereo,
            samples,
        ),
        stereo ==> left_of(stereo, samples).len() == right_of(stereo, samples).len()
            + samples.len() % 2,
{
    if stereo {
        if samples.len() % 2 == 0 {
            assert(left_of(stereo, samples.push(sample)) =~= left_of(stereo, samples).push(sample));
            assert(right_of(stereo, samples.push(sample)) =~= right_of(stereo, samples));
        } else {
            assert(left_of(stereo, samples.push(sample)) =~= left_of(stereo, samples));
            assert(right_of(stereo, samples.push(sample)) =~= right_of(stereo, samples).push(
                sample,
            ));
        }
    }
}

/// The blocks one after the other.
pub open spec fn glued(blocks: Seq<Seq<i16>>) -> Seq<i16>
    decreases blocks.len(),
{
    if blocks.len() == 0 {
        Seq::empty()
    } else {
        glued(blocks.drop_last()) + blocks.last()
    }
}

/// Nothing is lost, doubled or moved: blocks that each hold the next full block of a
/// channel, and what is left after them, are the channel.
pub proof fn law_blocks_make_up_the_channel(
    channel: Seq<i16>,
    blocks: Seq<Seq<i16>>,
    rest: Seq<i16>,
)
    requires
        blocks.len() * ENCODE_FRAMES <= channel.len(),
        forall|k: int|
            0 <= k < blocks.len() ==> #[trigger] blocks[k] == channel.subrange(
                k * ENCODE_FRAMES,
                (k + 1) * ENCODE_FRAMES,
            ),
        rest == channel.skip(blocks.len() * ENCODE_FRAMES),
    ensures
        glued(blocks) + rest == channel,
{
    lemma_glued_prefix(channel, blocks);
    assert(glued(blocks) + rest =~= channel);
}

proof fn lemma_glued_prefix(channel: Seq<i16>, blocks: Seq<Seq<i16>>)
    requires
        blocks.len() * ENCODE_FRAMES <= channel.len(),
        forall|k: int|
            0 <= k < blocks.len() ==> #[trigger] blocks[k] == channel.subrange(
                k * ENCODE_FRAMES,
                (k + 1) * ENCODE_FRAMES,
            ),
    ensures
        glued(blocks) == channel.take(blocks.len() * ENCODE_FRAMES),
    decreases blocks.len(),
{
    if blocks.len() > 0 {
        let front = blocks.drop_last();
        assert forall|k: int| 0 <= k < front.len() implies #[trigger] front[k] == channel.subrange(
            k * ENCODE_FRAMES,
            (k + 1) * ENCODE_FRAMES,
        ) by {
            assert(front[k] == blocks[k]);
        }
        lemma_glued_prefix(channel, front);
        assert(blocks.last() == blocks[blocks.len() - 1]);
        assert(glued(blocks) =~= channel.take(blocks.len() * ENCODE_FRAMES));
    } else {
        assert(glued(blocks) =~= channel.take(0));
    }
}

/// Every sample goes to its channel: of stereo audio, padded where its last frame was cut
/// short, both channels have as many samples, and together they hold all of them.
pub proof fn law_channels_hold_all_samples(samples: Seq<i16>, silence: i16)
    ensures
        ({
            let all = padded(true, samples, silence);
            let left = left_of(true, all);
            let right = right_of(true, all);
            &&& left.len() == right.len()
            &&& left.len() + right.len() == all.len()
            &&& forall|frame: int|
                0 <= frame < left.len() ==> #[trigger] left[frame] == all[2 * frame]
            &&& forall|frame: int|
                0 <= frame < right.len() ==> #[trigger] right[frame] == all[2 * frame + 1]
            &&& all.take(samples.len() as int) == samples
        }),
{
    let all = padded(true, samples, silence);
    assert(all.take(samples.len() as int) =~= samples);
}

/// Progress never goes back: after more frames, no less is reported.
pub proof fn law_encode_progress_never_goes_back(
    first: Option<Fraction>,
    second: Option<Fraction>,
    fewer: nat,
    more: nat,
    total_frames: Option<usize>,
)
    requires
        fewer <= more,
        total_frames is Some,
        tells_progress(first, fewer, total_frames),
        tells_progress(second, more, total_frames),
    ensures
        first->0.le(second->0),
{
    let a = first->0.num();
    let b = second->0.num();
    let total = total_frames->0 as nat;
    assert(a * total <= b * total) by (nonlinear_arith)
        requires
            a <= b,
    ;
}

/// The last report is that everything is encoded, whatever was reported before.
pub proof fn law_encode_progress_ends_at_one(last: Option<Fraction>, total_frames: Option<usize>)
    requires
        total_frames is Some,
        tells_progress(last, usize::MAX as nat, total_frames),
    ensures
        last->0.num() == last->0.den(),
{
}

/// The number of frames is the least that covers the length of the audio.
pub proof fn law_frames_cover_the_audio(nanos: nat, sample_rate: nat)
    ensures
        frame_count(nanos, sample_rate) * 1_000_000_000 >= nanos * sample_rate,
        frame_count(nanos, sample_rate) * 1_000_000_000 < nanos * sample_rate + 1_000_000_000,
{
}

/// Of interleaved stereo audio, every other sample goes to each channel, from the first one
/// on: a last frame that is cut short has its one sample in the first channel. Mono audio is
/// one channel as it is.
pub proof fn law_samples_go_to_their_channels(samples: Seq<i16>, frame: int)
    ensures
        left_of(false, samples) == samples,
        right_of(false, samples).len() == 0,
        2 * left_of(true, samples).len() == samples.len() + samples.len() % 2,
        2 * right_of(true, samples).len() == samples.len() - samples.len() % 2,
        0 <= 2 * frame < samples.len() ==> left_of(true, samples)[frame] == samples[2 * frame],
        0 <= 2 * frame < samples.len() - 1 ==> right_of(true, samples)[frame] == samples[2 * frame
            + 1],
{
}

/// Silence is added only to stereo audio whose last frame is cut short, and then once, at the
/// end.
pub proof fn law_only_a_cut_frame_is_padded(samples: Seq<i16>, silence: i16)
    ensures
        padded(false, samples, silence) == samples,
        samples.len() % 2 == 0 ==> padded(true, samples, silence) == samples,
        samples.len() % 2 == 1 ==> padded(true, samples, silence) == samples.push(silence),
{
}

/// A block holds its channels: mono one of them, stereo both, each as it is.
pub proof fn law_blocks_hold_their_channels(left: Vec<i16>, right: Vec<i16>)
    ensures
        Block::Mono(left).left() == left@,
        Block::Mono(left).right().len() == 0,
        (Block::Stereo { left, right }).left() == left@,
        (Block::Stereo { left, right }).right() == right@,
{
}

/// A block that is given out is the next 4096 frames of the audio: sample by sample, for as
/// many channels as the audio has.
pub proof fn law_a_block_is_the_next_frames(
    full: FullBlock,
    stereo: bool,
    samples: Seq<i16>,
    before: nat,
    after: nat,
    total_frames: Option<usize>,
    frame: int,
)
    requires
        is_next_block(Some(full), stereo, samples, before, after, total_frames),
    ensures
        after == before + 4096,
        full.block is Stereo == stereo,
        full.block.left().len() == 4096,
        stereo ==> {
            &&& samples.len() >= 2 * after
            &&& full.block.right().len() == 4096
            &&& 0 <= frame < 4096 ==> full.block.left()[frame] == samples[2 * (before + frame)]
            &&& 0 <= frame < 4096 ==> full.block.right()[frame] == samples[2 * (before + frame)
                + 1]
        },
        !stereo ==> {
            &&& samples.len() >= after
            &&& full.block.right().len() == 0
            &&& 0 <= frame < 4096 ==> full.block.left()[frame] == samples[before + frame]
        },
{
}

/// A block is held back only while there are fewer than 4096 whole frames for it.
pub proof fn law_blocks_are_not_held_back(
    stereo: bool,
    samples: Seq<i16>,
    before: nat,
    after: nat,
    total_frames: Option<usize>,
)
    requires
        is_next_block(None, stereo, samples, before, after, total_frames),
    ensures
        after == before,
        stereo ==> samples.len() < 2 * (before + 4096),
        !stereo ==> samples.len() < before + 4096,
{
}

/// Progress is the share of the frames that are encoded, at most all of them, wherever their
/// number is known, and is told nowhere else.
pub proof fn law_encode_progress_is_the_share_of_frames(
    progress: Option<Fraction>,
    frames: nat,
    total_frames: Option<usize>,
)
    requires
        tells_progress(progress, frames, total_frames),
    ensures
        progress is Some <==> total_frames is Some,
        progress is Some && frames <= total_frames->0 ==> progress->0.num() * total_frames->0
            == frames * progress->0.den(),
        progress is Some && frames >= total_frames->0 ==> progress->0.num()
            == progress->0.den(),
        progress is Some ==> progress->0.den() == total_frames->0,
{
}

/// The first channel of each block.
pub open spec fn lefts(blocks: Seq<FullBlock>) -> Seq<Seq<i16>> {
    blocks.map_values(|full: FullBlock| full.block.left())
}

/// The second channel of each block.
pub open spec fn rights(blocks: Seq<FullBlock>) -> Seq<Seq<i16>> {
    blocks.map_values(|full: FullBlock| full.block.right())
}

/// An encoder is fed all of the audio: the blocks that were given out one after the other,
/// block `k` once `taken[k]` samples were there, and what is left after them, are the two
/// channels of the audio, or the one.
pub proof fn law_encoder_is_fed_all_audio(
    blocks: Seq<FullBlock>,
    taken: Seq<nat>,
    rest: Block,
    stereo: bool,
    samples: Seq<i16>,
    total_frames: Option<usize>,
)
    requires
        taken.len() == blocks.len(),
        forall|k: int|
            0 <= k < blocks.len() ==> (#[trigger] taken[k]) <= samples.len() && is_next_block(
                Some(blocks[k]),
                stereo,
                samples.take(taken[k] as int),
                (k * 4096) as nat,
                ((k + 1) * 4096) as nat,
                total_frames,
            ),
        rest.left() == left_of(stereo, samples).skip((blocks.len() * 4096) as int),
        stereo ==> rest.right() == right_of(stereo, samples).skip((blocks.len() * 4096) as int),
    ensures
        glued(lefts(blocks)) + rest.left() == left_of(stereo, samples),
        stereo ==> glued(rights(blocks)) + rest.right() == right_of(stereo, samples),
{
    let left = left_of(stereo, samples);
    let right = right_of(stereo, samples);
    assert forall|k: int| 0 <= k < blocks.len() implies {
        &&& (k + 1) * ENCODE_FRAMES <= left.len()
        &&& #[trigger] lefts(blocks)[k] == left.subrange(k * ENCODE_FRAMES, (k + 1) * ENCODE_FRAMES)
    } by {
        let upto = samples.take(taken[k] as int);
        assert(left_of(stereo, upto).subrange(k * ENCODE_FRAMES, (k + 1) * ENCODE_FRAMES)
            =~= left.subrange(k * ENCODE_FRAMES, (k + 1) * ENCODE_FRAMES));
    }
    if blocks.len() > 0 {
        assert(lefts(blocks)[blocks.len() - 1] == blocks[blocks.len() - 1].block.left());
    }
    law_blocks_make_up_the_channel(left, lefts(blocks), rest.left());
    if stereo {
        assert forall|k: int| 0 <= k < blocks.len() implies {
            &&& (k + 1) * ENCODE_FRAMES <= right.len()
            &&& #[trigger] rights(blocks)[k] == right.subrange(
                k * ENCODE_FRAMES,
                (k + 1) * ENCODE_FRAMES,
            )
        } by {
            let upto = samples.take(taken[k] as int);
            assert(right_of(stereo, upto).subrange(k * ENCODE_FRAMES, (k + 1) * ENCODE_FRAMES)
                =~= right.subrange(k * ENCODE_FRAMES, (k + 1) * ENCODE_FRAMES));
        }
        if blocks.len() > 0 {
            assert(rights(blocks)[blocks.len() - 1] == blocks[blocks.len() - 1].block.right());
        }
        law_blocks_make_up_the_channel(right, rights(blocks), rest.right());
    }
}

/// The number of frames is the least that covers the audio: none of audio of unknown length
/// or of nothing, and else so many that with one fewer the audio would not be covered.
pub proof fn law_total_is_the_least_that_covers(
    frames: Option<usize>,
    duration: Option<Duration>,
    sample_rate: u32,
)
    requires
        is_total(frames, duration, sample_rate),
    ensures
        duration is None ==> frames is None,
        duration is Some ==> {
            let samples = duration->0@ * sample_rate as nat;
            &&& frames is None <==> samples == 0
            &&& frames is Some ==> (frames->0 - 1) * 1_000_000_000 < samples
            &&& frames is Some && frames->0 < usize::MAX ==> frames->0 * 1_000_000_000 >= samples
        },
{
}

/// Audio with one or two channels starts with nothing taken and nothing given out, and any
/// other number of channels is refused by that number. A total of zero is none.
pub proof fn law_only_mono_and_stereo_start(
    encoding: Result<UploadEncoding, EncodeError>,
    channels: u16,
    total_frames: Option<usize>,
)
    requires
        is_start(encoding, channels, total_frames),
    ensures
        channels == 1 || channels == 2 ==> {
            &&& encoding is Ok
            &&& encoding->Ok_0.stereo() == (channels == 2)
            &&& encoding->Ok_0.samples() == Seq::<i16>::empty()
            &&& encoding->Ok_0.written() == 0
            &&& total_frames is Some && total_frames->0 > 0 ==> encoding->Ok_0.total()
                == total_frames
            &&& total_frames is None || total_frames->0 == 0 ==> encoding->Ok_0.total() is None
        },
        channels != 1 && channels != 2 ==> encoding == Err::<UploadEncoding, _>(
            EncodeError::UnsupportedChannelCount(channels),
        ),
{
}

/// When the audio is over, all that is left of it is given out: every sample after the
/// frames that were given out before, a sample that the last frame lacks as silence, and
/// that everything is encoded is reported wherever the number of frames is known.
pub proof fn law_all_that_is_left_is_given_out(
    last: LastBlocks,
    stereo: bool,
    samples: Seq<i16>,
    written: nat,
    silence: i16,
    total_frames: Option<usize>,
    frame: int,
)
    requires
        is_end(last, stereo, samples, written, silence, total_frames),
        stereo ==> 2 * written <= samples.len(),
        !stereo ==> written <= samples.len(),
    ensures
        last.rest is Stereo == stereo,
        last.full is Some ==> last.full->0.block is Stereo == stereo,
        ({
            let (left, right) = match last.full {
                Some(full) => (
                    full.block.left() + last.rest.left(),
                    full.block.right() + last.rest.right(),
                ),
                None => (last.rest.left(), last.rest.right()),
            };
            if stereo {
                &&& 2 * (written + left.len()) == samples.len() + samples.len() % 2
                &&& right.len() == left.len()
                &&& 0 <= frame < left.len() ==> left[frame] == samples[2 * (written + frame)]
                &&& 0 <= frame < right.len() ==> right[frame] == if 2 * (written + frame) + 1
                    < samples.len() {
                    samples[2 * (written + frame) + 1]
                } else {
                    silence
                }
            } else {
                &&& left == samples.skip(written as int)
                &&& right.len() == 0
            }
        }),
        last.progress is Some <==> total_frames is Some,
        last.progress is Some && total_frames->0 > 0 ==> last.progress->0.num()
            == last.progress->0.den(),
{
    let all = padded(stereo, samples, silence);
    if last.full is Some {
        let full = last.full->0;
        if stereo {
            let left = full.block.left() + last.rest.left();
            let right = full.block.right() + last.rest.right();
            assert(left =~= left_of(true, all).skip(written as int));
            assert(right =~= right_of(true, all).skip(written as int));
        } else {
            assert(full.block.left() + last.rest.left() =~= samples.skip(written as int));
            assert(full.block.right() + last.rest.right() =~= Seq::<i16>::empty());
        }
    }
}

} // verus!
