//! How long a provider may take over a recording.

use vstd::prelude::*;

use crate::duration::Duration;

verus! {

/// No request is given up on earlier than this.
pub const DIRECT_BATCH_TIMEOUT_FLOOR_SECS: u64 = 900;

/// No request is waited for longer than this.
pub const DIRECT_BATCH_TIMEOUT_CEILING_SECS: u64 = 21_600;

/// What is allowed beyond the multiple of the audio's length.
pub const DIRECT_BATCH_TIMEOUT_BUFFER_SECS: u64 = 300;

/// How many times the audio's length a request may take.
pub const DIRECT_BATCH_AUDIO_DURATION_MULTIPLIER: u32 = 2;

/// Whole seconds in nanoseconds.
pub open spec fn secs(secs: u64) -> nat {
    (secs * 1_000_000_000) as nat
}

/// The timeout, in nanoseconds, for audio that is `audio` nanoseconds long: the multiple
/// of its length and the buffer, between the floor and the ceiling; the floor where the
/// length is not known.
pub open spec fn timeout_for(audio: Option<nat>) -> nat {
    match audio {
        None => secs(DIRECT_BATCH_TIMEOUT_FLOOR_SECS),
        Some(length) => {
            let wanted = length * DIRECT_BATCH_AUDIO_DURATION_MULTIPLIER as nat + secs(
                DIRECT_BATCH_TIMEOUT_BUFFER_SECS,
            );
            if wanted <= secs(DIRECT_BATCH_TIMEOUT_FLOOR_SECS) {
                secs(DIRECT_BATCH_TIMEOUT_FLOOR_SECS)
            } else if wanted >= secs(DIRECT_BATCH_TIMEOUT_CEILING_SECS) {
                secs(DIRECT_BATCH_TIMEOUT_CEILING_SECS)
            } else {
                wanted
            }
        },
    }
}

/// The length of a span that may not be known, in nanoseconds.
pub open spec fn length_of(duration: Option<Duration>) -> Option<nat> {
    match duration {
        Some(duration) => Some(duration@),
        None => None,
    }
}

/// How long to wait for the transcript of audio of the given length.
pub fn direct_batch_timeout_for_audio(audio_duration: Option<Duration>) -> (r: Duration)
    ensures
        r@ == timeout_for(length_of(audio_duration)),
{
    let floor: Duration = Duration::from_secs(DIRECT_BATCH_TIMEOUT_FLOOR_SECS);
    let ceiling: Duration = Duration::from_secs(DIRECT_BATCH_TIMEOUT_CEILING_SECS);
    let timeout: Duration = match audio_duration {
        Some(duration) => duration.saturating_mul(
            DIRECT_BATCH_AUDIO_DURATION_MULTIPLIER,
        ).saturating_add(Duration::from_secs(DIRECT_BATCH_TIMEOUT_BUFFER_SECS)),
        None => floor,
    };
    timeout.max(floor).min(ceiling)
}

/// Every timeout lies between the floor and the ceiling.
pub proof fn law_timeout_is_bounded(audio: Option<nat>)
    ensures
        secs(DIRECT_BATCH_TIMEOUT_FLOOR_SECS) <= timeout_for(audio) <= secs(
            DIRECT_BATCH_TIMEOUT_CEILING_SECS,
        ),
{
}

/// Longer audio is never given less time.
pub proof fn law_timeout_grows_with_audio(shorter: nat, longer: nat)
    requires
        shorter <= longer,
    ensures
        timeout_for(Some(shorter)) <= timeout_for(Some(longer)),
{
}

/// Audio whose length is known is never given less time than audio of unknown length.
pub proof fn law_unknown_audio_gets_the_least(audio: Option<nat>)
    ensures
        timeout_for(None) <= timeout_for(audio),
{
}

/// Below the ceiling, a request always has more time than the audio takes to play.
pub proof fn law_timeout_covers_playback(length: nat)
    requires
        length < secs(DIRECT_BATCH_TIMEOUT_CEILING_SECS),
    ensures
        timeout_for(Some(length)) > length,
{
}

/// A length that is known is known exactly, and one that is not is not made up.
pub proof fn law_lengths_are_taken_as_they_are(duration: Duration)
    ensures
        length_of(Some(duration)) == Some(duration@),
        length_of(None) is None,
{
}

/// From five minutes of audio to two hours, fifty-seven minutes and thirty seconds, a
/// request may take twice as long as the audio and five minutes more: a second more of
/// audio is two seconds more of waiting.
pub proof fn law_timeout_is_twice_the_audio_and_five_minutes(duration: Duration)
    requires
        300_000_000_000 <= duration@ <= 10_650_000_000_000,
    ensures
        timeout_for(length_of(Some(duration))) == 2 * duration@ + 300_000_000_000,
{
}

/// Short audio, and audio of unknown length, is waited for a quarter of an hour; very long
/// audio is waited for six hours.
pub proof fn law_timeout_at_the_ends(duration: Duration)
    ensures
        timeout_for(length_of(None)) == 900_000_000_000,
        duration@ <= 300_000_000_000 ==> timeout_for(length_of(Some(duration)))
            == 900_000_000_000,
        duration@ >= 10_650_000_000_000 ==> timeout_for(length_of(Some(duration)))
            == 21_600_000_000_000,
{
}

} // verus!
