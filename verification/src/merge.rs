//! Putting the transcripts of a split recording together again.

use vstd::prelude::*;

use crate::duration::{max_nat, Duration};
use crate::fraction::Fraction;
use crate::json::{views, Json, JsonView, Number};
use crate::moved::{Moved, Offset};
use crate::response::{
    best_reading, Alternatives, Channel, Response, ResponseView, Results, Word,
};
use crate::text::{join, joined, texts_of, trim, trimmed};

verus! {

/// What each of the responses says.
pub open spec fn response_views<S, T>(responses: Seq<Response<S, T>>) -> Seq<ResponseView<S, T>> {
    responses.map_values(|response: Response<S, T>| response@)
}

/// When segment `index` starts in the whole recording.
pub open spec fn segment_start(index: nat, segment: Duration) -> Offset {
    Offset { segment, index: index as usize }
}

/// `value` with the number in field `key`, if there is one, moved by `offset`.
pub open spec fn moved_field(value: JsonView, key: Seq<char>, offset: Offset) -> JsonView {
    match value.get(key) {
        Some(JsonView::Number(n)) => value.with(key, JsonView::Moved(Moved { read: n, offset })),
        _ => value,
    }
}

/// A speaker segment with its start and its end moved by `offset`.
pub open spec fn moved_speaker_segment(value: JsonView, offset: Offset) -> JsonView {
    moved_field(moved_field(value, "start"@, offset), "end"@, offset)
}

/// The speaker segments of a list, each moved by `offset`.
pub open spec fn moved_speaker_segments(items: Seq<JsonView>, offset: Offset) -> Seq<JsonView> {
    items.map_values(|item: JsonView| moved_speaker_segment(item, offset))
}

/// The speaker labels of all responses, in order.
pub open spec fn merged_labels<S, T>(responses: Seq<ResponseView<S, T>>) -> Seq<JsonView>
    decreases responses.len(),
{
    if responses.len() == 0 {
        Seq::empty()
    } else {
        merged_labels(responses.drop_last()) + responses.last().metadata.list("speaker_labels"@)
    }
}

/// The speaker segments of all responses, in order, on the clock of the whole recording.
pub open spec fn merged_speaker_segments<S, T>(
    responses: Seq<ResponseView<S, T>>,
    segment: Duration,
) -> Seq<JsonView>
    decreases responses.len(),
{
    if responses.len() == 0 {
        Seq::empty()
    } else {
        merged_speaker_segments(responses.drop_last(), segment) + moved_speaker_segments(
            responses.last().metadata.list("speaker_segments"@),
            segment_start((responses.len() - 1) as nat, segment),
        )
    }
}

/// The first metadata that is not `null`; `null` where all are.
pub open spec fn first_metadata<S, T>(responses: Seq<ResponseView<S, T>>) -> JsonView
    decreases responses.len(),
{
    if responses.len() == 0 {
        JsonView::Null
    } else {
        let before = first_metadata(responses.drop_last());
        if before is Null {
            responses.last().metadata
        } else {
            before
        }
    }
}

/// `value` with the list in field `key`, unless the list is empty.
pub open spec fn with_list(value: JsonView, key: Seq<char>, items: Seq<JsonView>) -> JsonView {
    if items.len() > 0 {
        value.with(key, JsonView::Array(items))
    } else {
        value
    }
}

/// The metadata of the whole recording.
pub open spec fn merged_metadata<S, T>(
    responses: Seq<ResponseView<S, T>>,
    segment: Duration,
) -> JsonView {
    let first = first_metadata(responses);
    if first is Null {
        JsonView::Object(Seq::empty())
    } else {
        with_list(
            with_list(first, "speaker_labels"@, merged_labels(responses)),
            "speaker_segments"@,
            merged_speaker_segments(responses, segment),
        )
    }
}

/// One more than the highest speaker of the words; zero where no word has a speaker.
pub open spec fn speakers_in<S, T>(words: Seq<Word<S, T>>) -> nat
    decreases words.len(),
{
    if words.len() == 0 {
        0
    } else {
        let before = speakers_in(words.drop_last());
        match words.last().speaker {
            Some(speaker) => max_nat(before, speaker as nat + 1),
            None => before,
        }
    }
}

/// How many speakers a response takes up: as many as its words name or its metadata
/// labels, and none where it has no reading.
pub open spec fn speaker_count<S, T>(response: ResponseView<S, T>) -> nat {
    match best_reading(response) {
        Some(reading) => max_nat(
            speakers_in(reading.words),
            response.metadata.list("speaker_labels"@).len(),
        ),
        None => 0,
    }
}

/// How many speakers the responses take up together.
pub open spec fn speakers_before<S, T>(responses: Seq<ResponseView<S, T>>) -> nat
    decreases responses.len(),
{
    if responses.len() == 0 {
        0
    } else {
        speakers_before(responses.drop_last()) + speaker_count(responses.last())
    }
}

/// `word` moved by `offset`, its speaker counted on from `speakers`.
pub open spec fn moved_word<S, T>(word: Word<S, T>, offset: Offset, speakers: nat) -> Word<
    Moved<S>,
    T,
> {
    Word {
        start: Moved { read: word.start, offset },
        end: Moved { read: word.end, offset },
        speaker: match word.speaker {
            Some(speaker) => Some((speaker + speakers) as usize),
            None => None,
        },
        rest: word.rest,
    }
}

/// The words of a list, each moved by `offset`, with speakers counted on from `speakers`.
pub open spec fn moved_words<S, T>(
    words: Seq<Word<S, T>>,
    offset: Offset,
    speakers: nat,
) -> Seq<Word<Moved<S>, T>> {
    words.map_values(|word: Word<S, T>| moved_word(word, offset, speakers))
}

/// The words of all responses, in order, on the clock of the whole recording, with no
/// speaker number used for two segments.
pub open spec fn merged_words<S, T>(
    responses: Seq<ResponseView<S, T>>,
    segment: Duration,
) -> Seq<Word<Moved<S>, T>>
    decreases responses.len(),
{
    if responses.len() == 0 {
        Seq::empty()
    } else {
        let before = merged_words(responses.drop_last(), segment);
        match best_reading(responses.last()) {
            Some(reading) => before + moved_words(
                reading.words,
                segment_start((responses.len() - 1) as nat, segment),
                speakers_before(responses.drop_last()),
            ),
            None => before,
        }
    }
}

/// The trimmed transcripts of all responses, in order, without those that are empty.
pub open spec fn transcripts<S, T>(responses: Seq<ResponseView<S, T>>) -> Seq<Seq<char>>
    decreases responses.len(),
{
    if responses.len() == 0 {
        Seq::empty()
    } else {
        let before = transcripts(responses.drop_last());
        match best_reading(responses.last()) {
            Some(reading) => if trimmed(reading.transcript).len() > 0 {
                before.push(trimmed(reading.transcript))
            } else {
                before
            },
            None => before,
        }
    }
}

/// Whether `merged` is what the responses say of the whole recording: one channel with
/// one reading, held to be certain.
pub open spec fn is_merge<S, T>(
    merged: ResponseView<Moved<S>, T>,
    responses: Seq<ResponseView<S, T>>,
    segment: Duration,
) -> bool {
    &&& merged.metadata == merged_metadata(responses, segment)
    &&& merged.channels.len() == 1
    &&& merged.channels[0].len() == 1
    &&& merged.channels[0][0].transcript == joined(transcripts(responses), " "@)
    &&& merged.channels[0][0].confidence.num() == 1
    &&& merged.channels[0][0].confidence.den() == 1
    &&& merged.channels[0][0].words == merged_words(responses, segment)
}

/// Moves the number in field `key`, if there is one, by `offset`.
fn move_field(value: &mut Json, key: &str, offset: Offset)
    ensures
        final(value)@ == moved_field(old(value)@, key@, offset),
{
    let read: Option<Number> = match value.get(key) {
        Some(Json::Number(n)) => Some(*n),
        _ => None,
    };
    if let Some(read) = read {
        value.insert(key, Json::Moved(Moved { read, offset }));
    }
}

/// The speaker segments of a list, each moved by `offset`.
fn move_speaker_segments(items: &Vec<Json>, offset: Offset) -> (r: Vec<Json>)
    ensures
        views(r@) == moved_speaker_segments(views(items@), offset),
{
    let mut moved: Vec<Json> = Vec::new();
    let mut i: usize = 0;
    while i < items.len()
        invariant
            i <= items@.len(),
            views(moved@) == moved_speaker_segments(views(items@), offset).take(i as int),
        decreases items@.len() - i,
    {
        let ghost before = moved@;
        let mut item: Json = items[i].duplicate();
        move_field(&mut item, "start", offset);
        move_field(&mut item, "end", offset);
        moved.push(item);
        assert(views(moved@) =~= views(before).push(
            moved_speaker_segments(views(items@), offset)[i as int],
        ));
        i = i + 1;
    }
    assert(views(moved@) =~= moved_speaker_segments(views(items@), offset));
    moved
}

/// The items of the array in field `key`; an empty list where there is no such array.
fn list(value: &Json, key: &str) -> (r: Vec<Json>)
    ensures
        views(r@) == value@.list(key@),
{
    let items: Option<&Vec<Json>> = match value.get(key) {
        Some(found) => found.as_array(),
        None => None,
    };
    match items {
        Some(items) => Json::duplicate_all(items),
        None => {
            let empty: Vec<Json> = Vec::new();
            assert(views(empty@) =~= Seq::empty());
            empty
        },
    }
}

/// The best reading of the first channel, where there is one.
fn take_best_reading<S, T>(results: Results<S, T>) -> (r: Option<Alternatives<S, T>>)
    ensures
        forall|metadata: Json|
            match best_reading(#[trigger] (Response { metadata, results })@) {
                Some(reading) => r matches Some(found) && found@ == reading,
                None => r is None,
            },
{
    let mut channels: Vec<Channel<S, T>> = results.channels;
    if channels.len() == 0 {
        return None;
    }
    let channel: Channel<S, T> = channels.swap_remove(0);
    let mut readings: Vec<Alternatives<S, T>> = channel.alternatives;
    if readings.len() == 0 {
        return None;
    }
    Some(readings.swap_remove(0))
}

/// One more than the highest speaker of the words; zero where no word has a speaker;
/// `None` where that is more than a `usize` can hold.
fn count_speakers<S, T>(words: &Vec<Word<S, T>>) -> (r: Option<usize>)
    ensures
        match r {
            Some(count) => count == speakers_in(words@),
            None => speakers_in(words@) > usize::MAX,
        },
{
    let mut count: usize = 0;
    let mut i: usize = 0;
    while i < words.len()
        invariant
            i <= words@.len(),
            count == speakers_in(words@.take(i as int)),
        decreases words@.len() - i,
    {
        proof {
            assert(words@.take(i + 1).drop_last() == words@.take(i as int));
            lemma_speakers_grow(words@, i + 1);
        }
        if let Some(speaker) = words[i].speaker {
            if speaker == usize::MAX {
                return None;
            }
            if speaker >= count {
                count = speaker + 1;
            }
        }
        i = i + 1;
    }
    assert(words@.take(i as int) == words@);
    Some(count)
}

/// How many speakers a response takes up; `None` where that is more than a `usize` can
/// hold.
fn count_response_speakers<S, T>(response: &Response<S, T>) -> (r: Option<usize>)
    ensures
        match r {
            Some(count) => count == speaker_count(response@),
            None => speaker_count(response@) > usize::MAX,
        },
{
    let channels: &Vec<Channel<S, T>> = &response.results.channels;
    if channels.len() == 0 || channels[0].alternatives.len() == 0 {
        return Some(0);
    }
    let labels: usize = count_labels(&response.metadata);
    match count_speakers(&channels[0].alternatives[0].words) {
        Some(named) => Some(
            if named >= labels {
                named
            } else {
                labels
            },
        ),
        None => None,
    }
}

/// How many speaker labels there are.
fn count_labels(metadata: &Json) -> (r: usize)
    ensures
        r == metadata@.list("speaker_labels"@).len(),
{
    match metadata.get("speaker_labels") {
        Some(found) => match found.as_array() {
            Some(items) => {
                assert(views(items@).len() == items@.len());
                items.len()
            },
            None => 0,
        },
        None => 0,
    }
}

/// Whether the speakers of the whole recording can be numbered.
pub fn speakers_fit<S, T>(responses: &Vec<Response<S, T>>) -> (r: bool)
    ensures
        r == (speakers_before(response_views(responses@)) <= usize::MAX),
{
    let ghost all = response_views(responses@);
    let mut total: usize = 0;
    let mut i: usize = 0;
    while i < responses.len()
        invariant
            i <= responses@.len(),
            all == response_views(responses@),
            total == speakers_before(all.take(i as int)),
        decreases responses@.len() - i,
    {
        proof {
            assert(all.take(i + 1).drop_last() == all.take(i as int));
            assert(all.take(i + 1).last() == responses@[i as int]@);
            lemma_speakers_before_grow(all, i + 1);
        }
        let count: usize = match count_response_speakers(&responses[i]) {
            Some(count) => count,
            None => return false,
        };
        match total.checked_add(count) {
            Some(sum) => {
                total = sum;
            },
            None => return false,
        }
        i = i + 1;
    }
    assert(all.take(i as int) == all);
    true
}

/// A prefix of the words names no speaker that the words do not.
proof fn lemma_speakers_grow<S, T>(words: Seq<Word<S, T>>, n: int)
    requires
        0 <= n <= words.len(),
    ensures
        speakers_in(words.take(n)) <= speakers_in(words),
    decreases words.len(),
{
    if n == words.len() {
        assert(words.take(n) == words);
    } else {
        assert(words.drop_last().take(n) == words.take(n));
        lemma_speakers_grow(words.drop_last(), n);
    }
}

/// Every speaker of the words lies below `speakers_in`.
pub proof fn lemma_speaker_below<S, T>(words: Seq<Word<S, T>>, i: int)
    requires
        0 <= i < words.len(),
        words[i].speaker is Some,
    ensures
        words[i].speaker->0 < speakers_in(words),
    decreases words.len(),
{
    if i < words.len() - 1 {
        lemma_speaker_below(words.drop_last(), i);
    }
}

/// The words of a list, each moved by `offset`, with speakers counted on from `speakers`.
fn move_words<S, T>(words: Vec<Word<S, T>>, offset: Offset, speakers: usize) -> (r: Vec<
    Word<Moved<S>, T>,
>)
    requires
        speakers_in(words@) + speakers <= usize::MAX,
    ensures
        r@ == moved_words(words@, offset, speakers as nat),
{
    let ghost all = words@;
    let mut moved: Vec<Word<Moved<S>, T>> = Vec::new();
    for word in iter: words
        invariant
            iter.seq() == all,
            speakers_in(all) + speakers <= usize::MAX,
            moved@ == moved_words(all, offset, speakers as nat).take(iter.index()),
    {
        let ghost at = iter.index();
        let ghost before = word;
        let speaker: Option<usize> = match word.speaker {
            Some(speaker) => {
                proof {
                    lemma_speaker_below(all, at);
                }
                Some(speaker + speakers)
            },
            None => None,
        };
        moved.push(
            Word {
                start: Moved { read: word.start, offset },
                end: Moved { read: word.end, offset },
                speaker,
                rest: word.rest,
            },
        );
        assert(moved@.last() == moved_word(before, offset, speakers as nat));
        assert(moved@ =~= moved_words(all, offset, speakers as nat).take(at + 1));
    }
    assert(moved@ =~= moved_words(all, offset, speakers as nat));
    moved
}

/// A prefix of the responses takes up no more speakers than all of them.
proof fn lemma_speakers_before_grow<S, T>(responses: Seq<ResponseView<S, T>>, n: int)
    requires
        0 <= n <= responses.len(),
    ensures
        speakers_before(responses.take(n)) <= speakers_before(responses),
    decreases responses.len(),
{
    if n == responses.len() {
        assert(responses.take(n) == responses);
    } else {
        assert(responses.drop_last().take(n) == responses.take(n));
        lemma_speakers_before_grow(responses.drop_last(), n);
    }
}

proof fn lemma_views_concat(a: Seq<Json>, b: Seq<Json>)
    ensures
        views(a + b) == views(a) + views(b),
{
    assert(views(a + b) =~= views(a) + views(b));
}

/// Puts the responses to the segments of a recording together, each segment but the
/// last `segment_duration` long.
///
/// Segments are transcribed independently, so their timestamps restart at zero and so
/// do their speaker numbers: both are counted on from segment to segment.
pub fn merge_segment_responses<S, T>(
    responses: Vec<Response<S, T>>,
    segment_duration: Duration,
) -> (r: Response<Moved<S>, T>)
    requires
        speakers_before(response_views(responses@)) <= usize::MAX,
    ensures
        is_merge(r@, response_views(responses@), segment_duration),
{
    let ghost all = response_views(responses@);
    let mut metadata: Json = Json::Null;
    let mut speaker_labels: Vec<Json> = Vec::new();
    let mut speaker_segments: Vec<Json> = Vec::new();
    let mut speaker_offset: usize = 0;
    let mut transcript_texts: Vec<String> = Vec::new();
    let mut words: Vec<Word<Moved<S>, T>> = Vec::new();
    let mut index: usize = 0;
    let ghost inputs = responses@;
    assert(inputs.len() == responses.len());
    proof {
        assert(views(speaker_labels@) =~= merged_labels(all.take(0)));
        assert(views(speaker_segments@) =~= merged_speaker_segments(all.take(0), segment_duration));
        assert(texts_of(transcript_texts@) =~= transcripts(all.take(0)));
        assert(words@ =~= merged_words(all.take(0), segment_duration));
    }
    for response in iter: responses
        invariant
            iter.seq() == inputs,
            all == response_views(inputs),
            index == iter.index(),
            iter.index() <= inputs.len() <= usize::MAX,
            speakers_before(all) <= usize::MAX,
            metadata@ == first_metadata(all.take(index as int)),
            views(speaker_labels@) == merged_labels(all.take(index as int)),
            views(speaker_segments@) == merged_speaker_segments(
                all.take(index as int),
                segment_duration,
            ),
            speaker_offset == speakers_before(all.take(index as int)),
            texts_of(transcript_texts@) == transcripts(all.take(index as int)),
            words@ == merged_words(all.take(index as int), segment_duration),
    {
        let ghost upto = all.take(index + 1);
        let ghost labels_before = speaker_labels@;
        let ghost segments_before = speaker_segments@;
        let ghost texts_before = transcript_texts@;
        proof {
            assert(upto.drop_last() == all.take(index as int));
            assert(upto.last() == response@);
            lemma_speakers_before_grow(all, index + 1);
        }
        let mut segment_labels: Vec<Json> = list(&response.metadata, "speaker_labels");
        let label_count: usize = segment_labels.len();
        let segment_segments: Vec<Json> = list(&response.metadata, "speaker_segments");
        let offset: Offset = Offset { segment: segment_duration, index };
        let mut moved_segments: Vec<Json> = move_speaker_segments(&segment_segments, offset);
        proof {
            lemma_views_concat(labels_before, segment_labels@);
            lemma_views_concat(segments_before, moved_segments@);
            assert(label_count == response@.metadata.list("speaker_labels"@).len());
        }
        speaker_labels.append(&mut segment_labels);
        speaker_segments.append(&mut moved_segments);
        let results: Results<S, T> = response.results;
        let ghost whole = response;
        if metadata.is_null() {
            metadata = response.metadata;
        }
        assert((Response { metadata: whole.metadata, results })@ == upto.last());
        if let Some(reading) = take_best_reading(results) {
            let transcript: &str = trim(reading.transcript.as_str());
            if !transcript.is_empty() {
                transcript_texts.push(transcript.to_owned());
                assert(texts_of(transcript_texts@) =~= texts_of(texts_before).push(transcript@));
            }
            let named: usize = match count_speakers(&reading.words) {
                Some(named) => named,
                None => {
                    // All speakers together fit, so these do.
                    assert(false);
                    usize::MAX
                },
            };
            let count: usize = if named >= label_count {
                named
            } else {
                label_count
            };
            let mut moved: Vec<Word<Moved<S>, T>> = move_words(
                reading.words,
                offset,
                speaker_offset,
            );
            words.append(&mut moved);
            speaker_offset = speaker_offset + count;
        }
        index = index + 1;
    }
    assert(all.take(index as int) == all);

    let metadata: Json = if metadata.is_null() {
        let fields: Vec<(String, Json)> = Vec::new();
        assert(Json::Object(fields)@->Object_0 =~= Seq::empty());
        Json::Object(fields)
    } else {
        let mut whole: Json = metadata;
        if speaker_labels.len() > 0 {
            whole.insert("speaker_labels", Json::from_items(speaker_labels));
        }
        if speaker_segments.len() > 0 {
            whole.insert("speaker_segments", Json::from_items(speaker_segments));
        }
        whole
    };

    let mut alternatives: Vec<Alternatives<Moved<S>, T>> = Vec::new();
    alternatives.push(
        Alternatives { transcript: join(&transcript_texts, " "), confidence: Fraction::one(), words },
    );
    let mut channels: Vec<Channel<Moved<S>, T>> = Vec::new();
    channels.push(Channel { alternatives });
    Response { metadata, results: Results { channels } }
}

} // verus!
