//! What a provider answers about one audio file.

use vstd::prelude::*;

use crate::fraction::Fraction;
use crate::json::{Json, JsonView};

verus! {

/// A word of a transcript: when it starts and ends, and who says it. `rest` is whatever
/// else the provider says of the word.
#[derive(Debug)]
pub struct Word<S, T> {
    pub start: S,
    pub end: S,
    pub speaker: Option<usize>,
    pub rest: T,
}

/// One reading of a channel.
#[derive(Debug)]
pub struct Alternatives<S, T> {
    pub transcript: String,
    pub confidence: Fraction,
    pub words: Vec<Word<S, T>>,
}

/// The readings of one channel, the best one first.
#[derive(Debug)]
pub struct Channel<S, T> {
    pub alternatives: Vec<Alternatives<S, T>>,
}

#[derive(Debug)]
pub struct Results<S, T> {
    pub channels: Vec<Channel<S, T>>,
}

/// A provider's answer.
#[derive(Debug)]
pub struct Response<S, T> {
    pub metadata: Json,
    pub results: Results<S, T>,
}

/// What an `Alternatives` says.
pub struct AlternativesView<S, T> {
    pub transcript: Seq<char>,
    pub confidence: Fraction,
    pub words: Seq<Word<S, T>>,
}

/// What a `Response` says: its metadata, and for each channel its readings.
pub struct ResponseView<S, T> {
    pub metadata: JsonView,
    pub channels: Seq<Seq<AlternativesView<S, T>>>,
}

impl<S, T> View for Alternatives<S, T> {
    type V = AlternativesView<S, T>;

    open spec fn view(&self) -> AlternativesView<S, T> {
        AlternativesView {
            transcript: self.transcript@,
            confidence: self.confidence,
            words: self.words@,
        }
    }
}

impl<S, T> View for Response<S, T> {
    type V = ResponseView<S, T>;

    open spec fn view(&self) -> ResponseView<S, T> {
        ResponseView {
            metadata: self.metadata@,
            channels: self.results.channels@.map_values(
                |channel: Channel<S, T>|
                    channel.alternatives@.map_values(|reading: Alternatives<S, T>| reading@),
            ),
        }
    }
}

/// The best reading of the first channel, where there is one.
pub open spec fn best_reading<S, T>(response: ResponseView<S, T>) -> Option<
    AlternativesView<S, T>,
> {
    if response.channels.len() > 0 && response.channels[0].len() > 0 {
        Some(response.channels[0][0])
    } else {
        None
    }
}

/// A response says what it holds: its metadata, and each reading of each channel, in order.
pub proof fn law_responses_say_what_they_hold<S, T>(
    response: Response<S, T>,
    channel: int,
    reading: int,
)
    requires
        0 <= channel < response.results.channels@.len(),
        0 <= reading < response.results.channels@[channel].alternatives@.len(),
    ensures
        response@.metadata == response.metadata@,
        response@.channels.len() == response.results.channels@.len(),
        response@.channels[channel].len()
            == response.results.channels@[channel].alternatives@.len(),
        ({
            let held = response.results.channels@[channel].alternatives@[reading];
            let said = response@.channels[channel][reading];
            &&& said.transcript == held.transcript@
            &&& said.confidence == held.confidence
            &&& said.words == held.words@
        }),
{
}

/// The best reading is the first one of the first channel, and of nothing else.
pub proof fn law_best_reading_comes_first<S, T>(response: ResponseView<S, T>)
    ensures
        response.channels.len() > 0 && response.channels[0].len() > 0 ==> best_reading(response)
            == Some(response.channels[0][0]),
        response.channels.len() == 0 ==> best_reading(response) is None,
        response.channels.len() > 0 && response.channels[0].len() == 0 ==> best_reading(
            response,
        ) is None,
{
}

} // verus!
