//! What holds of every merge of segment responses.

use vstd::prelude::*;

use crate::duration::Duration;
use crate::json::{lookup, with_field, JsonView};
use crate::merge::{
    first_metadata, lemma_speaker_below, merged_labels, merged_metadata,
    merged_speaker_segments, merged_words, moved_field, moved_speaker_segment, moved_word,
    moved_words, segment_start, speaker_count, speakers_before, speakers_in, transcripts, with_list,
};
use crate::moved::{time_of, Moved, Offset};
use crate::response::{best_reading, ResponseView, Word};

verus! {

/// How many words the responses have together.
pub open spec fn words_before<S, T>(responses: Seq<ResponseView<S, T>>) -> nat
    decreases responses.len(),
{
    if responses.len() == 0 {
        0
    } else {
        words_before(responses.drop_last()) + match best_reading(responses.last()) {
            Some(reading) => reading.words.len(),
            None => 0,
        }
    }
}

/// No word is lost or made up: the merge has as many words as the responses.
pub proof fn law_words_are_counted<S, T>(responses: Seq<ResponseView<S, T>>, segment: Duration)
    ensures
        merged_words(responses, segment).len() == words_before(responses),
    decreases responses.len(),
{
    if responses.len() > 0 {
        law_words_are_counted(responses.drop_last(), segment);
    }
}

/// Words keep their order: word `i` of segment `k` stands after all words of the
/// segments before it, moved by the start of its segment, its speaker counted on from
/// the speakers of the segments before.
pub proof fn law_words_keep_their_order<S, T>(
    responses: Seq<ResponseView<S, T>>,
    segment: Duration,
    k: int,
    i: int,
)
    requires
        0 <= k < responses.len(),
        best_reading(responses[k]) is Some,
        0 <= i < best_reading(responses[k])->0.words.len(),
    ensures
        words_before(responses.take(k)) + i < merged_words(responses, segment).len(),
        merged_words(responses, segment)[words_before(responses.take(k)) + i] == moved_word(
            best_reading(responses[k])->0.words[i],
            segment_start(k as nat, segment),
            speakers_before(responses.take(k)),
        ),
    decreases responses.len(),
{
    let front = responses.drop_last();
    law_words_are_counted(front, segment);
    if k == responses.len() - 1 {
        assert(responses.take(k) == front);
    } else {
        assert(responses.take(k) == front.take(k));
        law_words_keep_their_order(front, segment, k, i);
    }
}

/// Counting on is monotone: the responses before a later segment take up at least the
/// speakers of an earlier segment beyond those before that one.
proof fn lemma_speakers_counted_on<S, T>(responses: Seq<ResponseView<S, T>>, k: int, n: int)
    requires
        0 <= k < n <= responses.len(),
    ensures
        speakers_before(responses.take(k)) + speaker_count(responses[k]) <= speakers_before(
            responses.take(n),
        ),
    decreases n,
{
    let upto = responses.take(n);
    assert(upto.drop_last() == responses.take(n - 1));
    if k < n - 1 {
        lemma_speakers_counted_on(responses, k, n - 1);
    }
}

/// No speaker number is used for two segments: in the merge, a speaker of an earlier
/// segment has a lower number than any speaker of a later one.
pub proof fn law_speakers_stay_apart<S, T>(
    responses: Seq<ResponseView<S, T>>,
    segment: Duration,
    k: int,
    i: int,
    l: int,
    j: int,
)
    requires
        0 <= k < l < responses.len(),
        speakers_before(responses) <= usize::MAX,
        best_reading(responses[k]) is Some,
        best_reading(responses[l]) is Some,
        0 <= i < best_reading(responses[k])->0.words.len(),
        0 <= j < best_reading(responses[l])->0.words.len(),
        best_reading(responses[k])->0.words[i].speaker is Some,
        best_reading(responses[l])->0.words[j].speaker is Some,
    ensures
        ({
            let merged = merged_words(responses, segment);
            let earlier = merged[words_before(responses.take(k)) + i];
            let later = merged[words_before(responses.take(l)) + j];
            &&& earlier.speaker is Some
            &&& later.speaker is Some
            &&& earlier.speaker->0 < later.speaker->0
        }),
{
    law_words_keep_their_order(responses, segment, k, i);
    law_words_keep_their_order(responses, segment, l, j);
    lemma_speaker_below(best_reading(responses[k])->0.words, i);
    lemma_speaker_below(best_reading(responses[l])->0.words, j);
    lemma_speakers_counted_on(responses, k, l);
    lemma_speakers_counted_on(responses, l, responses.len() as int);
    assert(responses.take(responses.len() as int) == responses);
}

/// Within a segment, speakers are told apart as before: two words have the same speaker
/// in the merge exactly where they had the same speaker in the response.
pub proof fn law_speakers_of_a_segment_stay_distinct<S, T>(
    responses: Seq<ResponseView<S, T>>,
    segment: Duration,
    k: int,
    i: int,
    j: int,
)
    requires
        0 <= k < responses.len(),
        speakers_before(responses) <= usize::MAX,
        best_reading(responses[k]) is Some,
        0 <= i < best_reading(responses[k])->0.words.len(),
        0 <= j < best_reading(responses[k])->0.words.len(),
    ensures
        ({
            let words = best_reading(responses[k])->0.words;
            let merged = merged_words(responses, segment);
            let at = words_before(responses.take(k));
            merged[at + i].speaker == merged[at + j].speaker <==> words[i].speaker
                == words[j].speaker
        }),
{
    let words = best_reading(responses[k])->0.words;
    law_words_keep_their_order(responses, segment, k, i);
    law_words_keep_their_order(responses, segment, k, j);
    if words[i].speaker is Some {
        lemma_speaker_below(words, i);
    }
    if words[j].speaker is Some {
        lemma_speaker_below(words, j);
    }
    lemma_speakers_counted_on(responses, k, responses.len() as int);
    assert(responses.take(responses.len() as int) == responses);
}

/// How many speaker labels a response has.
pub open spec fn label_count<S, T>(response: ResponseView<S, T>) -> nat {
    response.metadata.list("speaker_labels"@).len()
}

/// Whether a response has a reading and labels every speaker that the reading names.
pub open spec fn fully_labelled<S, T>(response: ResponseView<S, T>) -> bool {
    &&& best_reading(response) is Some
    &&& speakers_in(best_reading(response)->0.words) <= label_count(response)
}

proof fn lemma_labels_counted<S, T>(responses: Seq<ResponseView<S, T>>)
    requires
        forall|k: int| 0 <= k < responses.len() ==> fully_labelled(#[trigger] responses[k]),
    ensures
        merged_labels(responses).len() == speakers_before(responses),
    decreases responses.len(),
{
    if responses.len() > 0 {
        let front = responses.drop_last();
        assert forall|k: int| 0 <= k < front.len() implies fully_labelled(#[trigger] front[k]) by {
            assert(fully_labelled(responses[k]));
        }
        lemma_labels_counted(front);
        assert(fully_labelled(responses[responses.len() - 1]));
    }
}

/// Labels follow their speakers: where the segments before `k` label all their speakers,
/// label `s` of segment `k` stands in the merged labels at the number that speaker `s`
/// of that segment has in the merge.
pub proof fn law_labels_follow_speakers<S, T>(responses: Seq<ResponseView<S, T>>, k: int, s: int)
    requires
        0 <= k < responses.len(),
        forall|l: int| 0 <= l < k ==> fully_labelled(#[trigger] responses[l]),
        0 <= s < label_count(responses[k]),
    ensures
        speakers_before(responses.take(k)) + s < merged_labels(responses).len(),
        merged_labels(responses)[speakers_before(responses.take(k)) + s]
            == responses[k].metadata.list("speaker_labels"@)[s],
    decreases responses.len(),
{
    let front = responses.drop_last();
    if k == responses.len() - 1 {
        assert(responses.take(k) == front);
        assert forall|l: int| 0 <= l < front.len() implies fully_labelled(#[trigger] front[l]) by {
            assert(fully_labelled(responses[l]));
        }
        lemma_labels_counted(front);
    } else {
        assert(responses.take(k) == front.take(k));
        assert forall|l: int| 0 <= l < k implies fully_labelled(#[trigger] front[l]) by {
            assert(fully_labelled(responses[l]));
        }
        law_labels_follow_speakers(front, k, s);
    }
}

/// Segments follow each other on the clock of the whole recording, however times are read:
/// a word that lies within its segment starts and ends, in the merge, no later than any
/// word of a later segment starts.
pub proof fn law_segments_follow_each_other<S, T>(
    reading: spec_fn(S) -> int,
    responses: Seq<ResponseView<S, T>>,
    segment: Duration,
    k: int,
    i: int,
    l: int,
    j: int,
)
    requires
        0 <= k < l < responses.len() <= usize::MAX,
        best_reading(responses[k]) is Some,
        best_reading(responses[l]) is Some,
        0 <= i < best_reading(responses[k])->0.words.len(),
        0 <= j < best_reading(responses[l])->0.words.len(),
        0 <= reading(best_reading(responses[l])->0.words[j].start),
    ensures
        ({
            let word = best_reading(responses[k])->0.words[i];
            let merged = merged_words(responses, segment);
            let earlier = merged[words_before(responses.take(k)) + i];
            let later = merged[words_before(responses.take(l)) + j];
            &&& reading(word.start) <= segment@ ==> time_of(reading, earlier.start) <= time_of(
                reading,
                later.start,
            )
            &&& reading(word.end) <= segment@ ==> time_of(reading, earlier.end) <= time_of(
                reading,
                later.start,
            )
        }),
{
    law_words_keep_their_order(responses, segment, k, i);
    law_words_keep_their_order(responses, segment, l, j);
    let length = segment@;
    assert(k * length + length <= l * length) by (nonlinear_arith)
        requires
            k < l,
    ;
}

/// Words that start in order in each response start in order in the merge, however times
/// are read, as long as each starts within its segment.
pub proof fn law_merged_words_start_in_order<S, T>(
    reading: spec_fn(S) -> int,
    responses: Seq<ResponseView<S, T>>,
    segment: Duration,
    k: int,
    i: int,
    l: int,
    j: int,
)
    requires
        0 <= k <= l < responses.len() <= usize::MAX,
        best_reading(responses[k]) is Some,
        best_reading(responses[l]) is Some,
        0 <= i < best_reading(responses[k])->0.words.len(),
        0 <= j < best_reading(responses[l])->0.words.len(),
        k == l ==> reading(best_reading(responses[k])->0.words[i].start) <= reading(
            best_reading(responses[l])->0.words[j].start,
        ),
        reading(best_reading(responses[k])->0.words[i].start) <= segment@,
        0 <= reading(best_reading(responses[l])->0.words[j].start),
    ensures
        ({
            let merged = merged_words(responses, segment);
            time_of(reading, merged[words_before(responses.take(k)) + i].start) <= time_of(
                reading,
                merged[words_before(responses.take(l)) + j].start,
            )
        }),
{
    if k < l {
        law_segments_follow_each_other(reading, responses, segment, k, i, l, j);
    } else {
        law_words_keep_their_order(responses, segment, k, i);
        law_words_keep_their_order(responses, segment, l, j);
    }
}

/// Moving a word keeps how long it is, however times are read.
pub proof fn law_moving_keeps_lengths<S, T>(
    reading: spec_fn(S) -> int,
    word: Word<S, T>,
    offset: Offset,
    speakers: nat,
)
    ensures
        ({
            let moved = moved_word(word, offset, speakers);
            time_of(reading, moved.end) - time_of(reading, moved.start) == reading(word.end)
                - reading(word.start)
        }),
{
}

/// A recording of one segment is left as it was: nothing is to be added to the times of
/// its words, and all else of them is kept.
pub proof fn law_one_segment_keeps_its_words<S, T>(
    response: ResponseView<S, T>,
    segment: Duration,
    i: int,
)
    requires
        best_reading(response) is Some,
        0 <= i < best_reading(response)->0.words.len(),
    ensures
        merged_words(seq![response], segment).len() == best_reading(response)->0.words.len(),
        ({
            let word = best_reading(response)->0.words[i];
            let merged = merged_words(seq![response], segment)[i];
            &&& merged.start.read == word.start
            &&& merged.start.offset@ == 0
            &&& merged.end.read == word.end
            &&& merged.end.offset@ == 0
            &&& merged.speaker == word.speaker
            &&& merged.rest == word.rest
        }),
{
    let one = seq![response];
    let words = best_reading(response)->0.words;
    assert(one.drop_last() == Seq::<ResponseView<S, T>>::empty());
    assert(one.last() == response);
    assert(merged_words(one.drop_last(), segment) == Seq::<Word<Moved<S>, T>>::empty());
    assert(speakers_before(one.drop_last()) == 0);
    assert(merged_words(one, segment) == moved_words(words, segment_start(0, segment), 0));
    let length = segment@;
    assert(0 * length == 0) by (nonlinear_arith);
}

/// Nothing to merge gives an empty object, an empty transcript and no words.
pub proof fn law_nothing_merges_to_nothing<S, T>(segment: Duration)
    ensures
        merged_metadata(Seq::<ResponseView<S, T>>::empty(), segment) == JsonView::Object(
            Seq::empty(),
        ),
        transcripts(Seq::<ResponseView<S, T>>::empty()) == Seq::<Seq<char>>::empty(),
        merged_words(Seq::<ResponseView<S, T>>::empty(), segment) == Seq::<
            Word<Moved<S>, T>,
        >::empty(),
{
}

/// The merged transcript is made of pieces that say something.
pub proof fn law_no_piece_is_empty<S, T>(responses: Seq<ResponseView<S, T>>, i: int)
    requires
        0 <= i < transcripts(responses).len(),
    ensures
        transcripts(responses)[i].len() > 0,
    decreases responses.len(),
{
    if i < transcripts(responses.drop_last()).len() {
        law_no_piece_is_empty(responses.drop_last(), i);
    }
}

proof fn lemma_with_field_lookup(
    fields: Seq<(Seq<char>, JsonView)>,
    key: Seq<char>,
    value: JsonView,
    other: Seq<char>,
)
    ensures
        lookup(with_field(fields, key, value), other) == if other == key {
            Some(value)
        } else {
            lookup(fields, other)
        },
    decreases fields.len(),
{
    let after = with_field(fields, key, value);
    if fields.len() > 0 {
        let rest = fields.drop_first();
        if fields.first().0 == key {
            assert(after.first() == (key, value));
            assert(after.drop_first() =~= rest);
        } else {
            lemma_with_field_lookup(rest, key, value, other);
            assert(after.first() == fields.first());
            assert(after.drop_first() =~= with_field(rest, key, value));
        }
    } else {
        assert(after.first() == (key, value));
        assert(lookup(after.drop_first(), other) is None);
    }
}

/// A field that was set reads back, and all other fields are left alone.
pub proof fn law_set_field_reads_back(
    value: JsonView,
    key: Seq<char>,
    item: JsonView,
    other: Seq<char>,
)
    requires
        value is Object,
    ensures
        value.with(key, item) is Object,
        value.with(key, item).get(other) == if other == key {
            Some(item)
        } else {
            value.get(other)
        },
{
    lemma_with_field_lookup(value->Object_0, key, item, other);
}

/// Moving a speaker segment touches nothing but its start and its end.
pub proof fn law_moved_speaker_segment_keeps_other_fields(
    value: JsonView,
    offset: Offset,
    key: Seq<char>,
)
    requires
        key != "start"@,
        key != "end"@,
    ensures
        moved_speaker_segment(value, offset).get(key) == value.get(key),
{
    let halfway = moved_field(value, "start"@, offset);
    lemma_moved_field_reads_back(value, "start"@, offset, key);
    lemma_moved_field_reads_back(halfway, "end"@, offset, key);
}

/// The value of a field that holds a time: a number is moved, anything else is left alone.
pub open spec fn moved_time(value: Option<JsonView>, offset: Offset) -> Option<JsonView> {
    match value {
        Some(JsonView::Number(n)) => Some(JsonView::Moved(Moved { read: n, offset })),
        other => other,
    }
}

proof fn lemma_moved_field_reads_back(
    value: JsonView,
    key: Seq<char>,
    offset: Offset,
    other: Seq<char>,
)
    ensures
        moved_field(value, key, offset).get(other) == if other == key {
            moved_time(value.get(key), offset)
        } else {
            value.get(other)
        },
{
    if let Some(JsonView::Number(n)) = value.get(key) {
        law_set_field_reads_back(
            value,
            key,
            JsonView::Moved(Moved { read: n, offset }),
            other,
        );
    }
}

/// Moving a speaker segment moves its start and its end, each on its own: one that is a
/// number is moved, whatever the other is; one that is missing or no number is left alone.
pub proof fn law_moved_speaker_segment_times(value: JsonView, offset: Offset)
    ensures
        moved_speaker_segment(value, offset).get("start"@) == moved_time(
            value.get("start"@),
            offset,
        ),
        moved_speaker_segment(value, offset).get("end"@) == moved_time(value.get("end"@), offset),
{
    reveal_strlit("start");
    reveal_strlit("end");
    assert("start"@.len() != "end"@.len());
    let halfway = moved_field(value, "start"@, offset);
    lemma_moved_field_reads_back(value, "start"@, offset, "start"@);
    lemma_moved_field_reads_back(value, "start"@, offset, "end"@);
    lemma_moved_field_reads_back(halfway, "end"@, offset, "start"@);
    lemma_moved_field_reads_back(halfway, "end"@, offset, "end"@);
}

/// The merged metadata is the first metadata with nothing but its speaker labels and its
/// speaker segments replaced, and those only where there are any.
pub proof fn law_metadata_keeps_other_fields<S, T>(
    responses: Seq<ResponseView<S, T>>,
    segment: Duration,
    key: Seq<char>,
)
    requires
        key != "speaker_labels"@,
        key != "speaker_segments"@,
    ensures
        merged_metadata(responses, segment).get(key) == first_metadata(responses).get(key),
{
    let first = first_metadata(responses);
    let labels = merged_labels(responses);
    let segments = merged_speaker_segments(responses, segment);
    let halfway = with_list(first, "speaker_labels"@, labels);
    if first is Object {
        law_set_field_reads_back(first, "speaker_labels"@, JsonView::Array(labels), key);
        law_set_field_reads_back(halfway, "speaker_segments"@, JsonView::Array(segments), key);
    }
}

/// Where the first metadata is an object, all speaker labels and all speaker segments of
/// the recording are found in the merged metadata.
pub proof fn law_metadata_lists_all_speakers<S, T>(
    responses: Seq<ResponseView<S, T>>,
    segment: Duration,
)
    requires
        first_metadata(responses) is Object,
    ensures
        merged_labels(responses).len() > 0 ==> merged_metadata(responses, segment).list(
            "speaker_labels"@,
        ) == merged_labels(responses),
        merged_speaker_segments(responses, segment).len() > 0 ==> merged_metadata(
            responses,
            segment,
        ).list("speaker_segments"@) == merged_speaker_segments(responses, segment),
{
    reveal_strlit("speaker_labels");
    reveal_strlit("speaker_segments");
    assert("speaker_labels"@.len() != "speaker_segments"@.len());
    let first = first_metadata(responses);
    let labels = merged_labels(responses);
    let segments = merged_speaker_segments(responses, segment);
    let halfway = with_list(first, "speaker_labels"@, labels);
    law_set_field_reads_back(
        first,
        "speaker_labels"@,
        JsonView::Array(labels),
        "speaker_labels"@,
    );
    law_set_field_reads_back(
        halfway,
        "speaker_segments"@,
        JsonView::Array(segments),
        "speaker_labels"@,
    );
    law_set_field_reads_back(
        halfway,
        "speaker_segments"@,
        JsonView::Array(segments),
        "speaker_segments"@,
    );
}

} // verus!
