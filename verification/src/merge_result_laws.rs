//! What holds of every merge, said of the responses and the merge themselves.

use vstd::prelude::*;

use crate::duration::Duration;
use crate::json::{lookup, with_field, JsonView};
use crate::merge::{
    first_metadata, is_merge, lemma_speaker_below, merged_labels, merged_metadata,
    merged_speaker_segments, merged_words, moved_field, moved_speaker_segment,
    moved_speaker_segments, response_views, segment_start, speaker_count, speakers_before,
    speakers_in, transcripts, with_list,
};
use crate::merge_laws::{
    law_metadata_keeps_other_fields, law_metadata_lists_all_speakers,
    law_moved_speaker_segment_keeps_other_fields, law_moved_speaker_segment_times,
    law_no_piece_is_empty, law_set_field_reads_back,
};
use crate::moved::{Moved, Offset};
use crate::response::{Response, ResponseView, Word};
use crate::text::{joined, trimmed};

verus! {

/// The responses to the segments are taken as they are, in order.
pub proof fn law_responses_are_taken_in_order<S, T>(responses: Seq<Response<S, T>>, i: int)
    requires
        0 <= i < responses.len(),
    ensures
        response_views(responses).len() == responses.len(),
        response_views(responses)[i] == responses[i]@,
{
}

/// A merge is one channel with one reading, held to be certain.
pub proof fn law_merge_is_one_certain_reading<S, T>(
    merged: ResponseView<Moved<S>, T>,
    responses: Seq<ResponseView<S, T>>,
    segment: Duration,
)
    requires
        is_merge(merged, responses, segment),
    ensures
        merged.channels.len() == 1,
        merged.channels[0].len() == 1,
        merged.channels[0][0].confidence.num() == 1,
        merged.channels[0][0].confidence.den() == 1,
{
}

/// Nothing merges to no words, no text and an empty object.
pub proof fn law_merge_of_nothing<S, T>(merged: ResponseView<Moved<S>, T>, segment: Duration)
    requires
        is_merge(merged, Seq::<ResponseView<S, T>>::empty(), segment),
    ensures
        merged.channels[0][0].words.len() == 0,
        merged.channels[0][0].transcript.len() == 0,
        merged.metadata is Object,
        merged.metadata->Object_0.len() == 0,
{
}

/// One more segment adds its words to the merge, after all others and in their order: each
/// with its times as they were read, moved by the segments before, its speaker told or
/// not as before, and all else of it. A segment without a reading adds none.
pub proof fn law_next_segment_adds_its_words<S, T>(
    before: ResponseView<Moved<S>, T>,
    after: ResponseView<Moved<S>, T>,
    responses: Seq<ResponseView<S, T>>,
    next: ResponseView<S, T>,
    segment: Duration,
)
    requires
        is_merge(before, responses, segment),
        is_merge(after, responses.push(next), segment),
        responses.len() <= usize::MAX,
    ensures
        ({
            let old_words = before.channels[0][0].words;
            let new_words = after.channels[0][0].words;
            if next.channels.len() > 0 && next.channels[0].len() > 0 {
                let words = next.channels[0][0].words;
                &&& new_words.len() == old_words.len() + words.len()
                &&& new_words.take(old_words.len() as int) == old_words
                &&& forall|i: int|
                    0 <= i < words.len() ==> {
                        let word = #[trigger] words[i];
                        let added = new_words[old_words.len() + i];
                        &&& added.start.read == word.start
                        &&& added.end.read == word.end
                        &&& added.start.offset == (Offset {
                            segment,
                            index: responses.len() as usize,
                        })
                        &&& added.start.offset@ == responses.len() * segment@
                        &&& added.end.offset == added.start.offset
                        &&& added.speaker is Some <==> word.speaker is Some
                        &&& added.rest == word.rest
                    }
            } else {
                new_words == old_words
            }
        }),
{
    let all = responses.push(next);
    assert(all.drop_last() =~= responses);
    let old_words = merged_words(responses, segment);
    let new_words = merged_words(all, segment);
    assert(new_words.take(old_words.len() as int) =~= old_words);
}

/// One more segment has its speakers numbered on: each of them by as many as the segments
/// before it take up.
pub proof fn law_next_segment_has_its_speakers_numbered_on<S, T>(
    before: ResponseView<Moved<S>, T>,
    after: ResponseView<Moved<S>, T>,
    responses: Seq<ResponseView<S, T>>,
    next: ResponseView<S, T>,
    segment: Duration,
    i: int,
)
    requires
        is_merge(before, responses, segment),
        is_merge(after, responses.push(next), segment),
        speakers_before(responses.push(next)) <= usize::MAX,
        next.channels.len() > 0,
        next.channels[0].len() > 0,
        0 <= i < next.channels[0][0].words.len(),
        next.channels[0][0].words[i].speaker is Some,
    ensures
        ({
            let speaker = next.channels[0][0].words[i].speaker->0;
            let added = after.channels[0][0].words[before.channels[0][0].words.len() + i];
            &&& added.speaker is Some
            &&& added.speaker->0 == speaker + speakers_before(responses)
        }),
{
    assert(responses.push(next).drop_last() =~= responses);
    lemma_speaker_below(next.channels[0][0].words, i);
}

/// The speakers that the segments take up add up, from none.
pub proof fn law_speakers_add_up<S, T>(
    responses: Seq<ResponseView<S, T>>,
    next: ResponseView<S, T>,
)
    ensures
        speakers_before(Seq::<ResponseView<S, T>>::empty()) == 0,
        speakers_before(responses.push(next)) == speakers_before(responses) + speaker_count(next),
{
    assert(responses.push(next).drop_last() =~= responses);
}

proof fn lemma_highest_speaker_is_there<S, T>(words: Seq<Word<S, T>>)
    ensures
        speakers_in(words) > 0 ==> exists|i: int|
            0 <= i < words.len() && (#[trigger] words[i]).speaker is Some && words[i].speaker->0
                + 1 == speakers_in(words),
    decreases words.len(),
{
    if words.len() > 0 {
        let front = words.drop_last();
        lemma_highest_speaker_is_there(front);
        if speakers_in(words) > 0 {
            if speakers_in(words) == speakers_in(front) {
                let i = choose|i: int|
                    0 <= i < front.len() && (#[trigger] front[i]).speaker is Some
                        && front[i].speaker->0 + 1 == speakers_in(front);
                assert(words[i] == front[i]);
            } else {
                assert(words[words.len() - 1].speaker is Some);
            }
        }
    }
}

/// A segment takes up just enough speakers for those that its words name and those that its
/// metadata labels, and none where it has no reading.
pub proof fn law_a_segment_takes_up_just_enough_speakers<S, T>(response: ResponseView<S, T>)
    ensures
        ({
            let labels = response.metadata.list("speaker_labels"@);
            let count = speaker_count(response);
            if response.channels.len() > 0 && response.channels[0].len() > 0 {
                let words = response.channels[0][0].words;
                &&& count >= labels.len()
                &&& forall|i: int|
                    0 <= i < words.len() && (#[trigger] words[i]).speaker is Some
                        ==> words[i].speaker->0 < count
                &&& count > labels.len() ==> exists|i: int|
                    0 <= i < words.len() && (#[trigger] words[i]).speaker is Some
                        && words[i].speaker->0 + 1 == count
            } else {
                count == 0
            }
        }),
{
    if response.channels.len() > 0 && response.channels[0].len() > 0 {
        let words = response.channels[0][0].words;
        lemma_highest_speaker_is_there(words);
        assert forall|i: int|
            0 <= i < words.len() && (#[trigger] words[i]).speaker is Some implies words[i].speaker->0
            < speaker_count(response) by {
            lemma_speaker_below(words, i);
        }
    }
}

proof fn lemma_pieces_make_text(pieces: Seq<Seq<char>>)
    requires
        pieces.len() > 0,
        pieces[0].len() > 0,
    ensures
        joined(pieces, " "@).len() > 0,
    decreases pieces.len(),
{
    if pieces.len() > 1 {
        assert(pieces.drop_last()[0] == pieces[0]);
        lemma_pieces_make_text(pieces.drop_last());
    }
}

/// One more segment adds its trimmed transcript after a space, or without one where there
/// was no text yet. A segment without a reading, or with nothing but white space, adds
/// nothing.
pub proof fn law_next_segment_adds_its_transcript<S, T>(
    before: ResponseView<Moved<S>, T>,
    after: ResponseView<Moved<S>, T>,
    responses: Seq<ResponseView<S, T>>,
    next: ResponseView<S, T>,
    segment: Duration,
)
    requires
        is_merge(before, responses, segment),
        is_merge(after, responses.push(next), segment),
    ensures
        ({
            let old_text = before.channels[0][0].transcript;
            let new_text = after.channels[0][0].transcript;
            if next.channels.len() > 0 && next.channels[0].len() > 0 {
                let text = trimmed(next.channels[0][0].transcript);
                &&& text.len() == 0 ==> new_text == old_text
                &&& text.len() > 0 && old_text.len() == 0 ==> new_text == text
                &&& text.len() > 0 && old_text.len() > 0 ==> new_text == old_text + " "@ + text
            } else {
                new_text == old_text
            }
        }),
{
    let all = responses.push(next);
    assert(all.drop_last() =~= responses);
    let pieces = transcripts(responses);
    if pieces.len() > 0 {
        law_no_piece_is_empty(responses, 0);
        lemma_pieces_make_text(pieces);
    }
    if next.channels.len() > 0 && next.channels[0].len() > 0 {
        let text = trimmed(next.channels[0][0].transcript);
        if text.len() > 0 {
            assert(transcripts(all) == pieces.push(text));
            assert(pieces.push(text).drop_last() =~= pieces);
        }
    }
}

/// How many items the lists in field `key` of the responses' metadata hold together.
pub open spec fn items_listed<S, T>(responses: Seq<ResponseView<S, T>>, key: Seq<char>) -> nat
    decreases responses.len(),
{
    if responses.len() == 0 {
        0
    } else {
        items_listed(responses.drop_last(), key) + responses.last().metadata.list(key).len()
    }
}

proof fn lemma_items_listed_before<S, T>(
    responses: Seq<ResponseView<S, T>>,
    key: Seq<char>,
    k: int,
    n: int,
)
    requires
        0 <= k < n <= responses.len(),
    ensures
        items_listed(responses.take(k), key) + responses[k].metadata.list(key).len()
            <= items_listed(responses.take(n), key),
    decreases n,
{
    assert(responses.take(n).drop_last() =~= responses.take(n - 1));
    if k < n - 1 {
        lemma_items_listed_before(responses, key, k, n - 1);
    }
}

proof fn lemma_with_field_keeps_names(
    fields: Seq<(Seq<char>, JsonView)>,
    key: Seq<char>,
    value: JsonView,
)
    requires
        lookup(fields, key) is Some,
    ensures
        with_field(fields, key, value).len() == fields.len(),
        forall|j: int|
            0 <= j < fields.len() ==> (#[trigger] with_field(fields, key, value)[j]).0
                == fields[j].0,
    decreases fields.len(),
{
    if fields.len() > 0 && fields.first().0 != key {
        let rest = fields.drop_first();
        lemma_with_field_keeps_names(rest, key, value);
        assert forall|j: int| 0 <= j < fields.len() implies (#[trigger] with_field(
            fields,
            key,
            value,
        )[j]).0 == fields[j].0 by {
            if j > 0 {
                assert(with_field(fields, key, value)[j] == with_field(rest, key, value)[j - 1]);
                assert(rest[j - 1] == fields[j]);
            }
        }
    }
}

proof fn lemma_moved_field_keeps_names(value: JsonView, key: Seq<char>, offset: Offset)
    ensures
        value is Object <==> moved_field(value, key, offset) is Object,
        !(value is Object) ==> moved_field(value, key, offset) == value,
        value is Object ==> {
            let fields = value->Object_0;
            let moved = moved_field(value, key, offset)->Object_0;
            &&& moved.len() == fields.len()
            &&& forall|j: int| 0 <= j < fields.len() ==> (#[trigger] moved[j]).0 == fields[j].0
        },
{
    if let Some(JsonView::Number(n)) = value.get(key) {
        lemma_with_field_keeps_names(
            value->Object_0,
            key,
            JsonView::Moved(Moved { read: n, offset }),
        );
    }
}

/// Moving a speaker segment moves its start and its end, each where it is a number, and
/// changes nothing else: neither another field, nor the order of the fields, nor anything
/// that is no object.
pub proof fn law_moved_speaker_segment(item: JsonView, offset: Offset, key: Seq<char>)
    ensures
        ({
            let moved = moved_speaker_segment(item, offset);
            if item is Object {
                &&& moved is Object
                &&& match item.get(key) {
                    Some(JsonView::Number(n)) => if key == "start"@ || key == "end"@ {
                        moved.get(key) == Some(JsonView::Moved(Moved { read: n, offset }))
                    } else {
                        moved.get(key) == item.get(key)
                    },
                    _ => moved.get(key) == item.get(key),
                }
                &&& moved->Object_0.len() == item->Object_0.len()
                &&& forall|j: int|
                    0 <= j < item->Object_0.len() ==> (#[trigger] moved->Object_0[j]).0
                        == item->Object_0[j].0
            } else {
                moved == item
            }
        }),
{
    law_moved_speaker_segment_times(item, offset);
    if key != "start"@ && key != "end"@ {
        law_moved_speaker_segment_keeps_other_fields(item, offset, key);
    }
    let halfway = moved_field(item, "start"@, offset);
    lemma_moved_field_keeps_names(item, "start"@, offset);
    lemma_moved_field_keeps_names(halfway, "end"@, offset);
    if item is Object {
        let moved = moved_speaker_segment(item, offset);
        assert forall|j: int| 0 <= j < item->Object_0.len() implies (
        #[trigger] moved->Object_0[j]).0 == item->Object_0[j].0 by {
            assert(moved->Object_0[j].0 == halfway->Object_0[j].0);
            assert(halfway->Object_0[j].0 == item->Object_0[j].0);
        }
    }
}

proof fn lemma_speaker_segment_at<S, T>(
    responses: Seq<ResponseView<S, T>>,
    segment: Duration,
    k: int,
    i: int,
)
    requires
        0 <= k < responses.len(),
        0 <= i < responses[k].metadata.list("speaker_segments"@).len(),
    ensures
        merged_speaker_segments(responses, segment).len() == items_listed(
            responses,
            "speaker_segments"@,
        ),
        items_listed(responses.take(k), "speaker_segments"@) + i < merged_speaker_segments(
            responses,
            segment,
        ).len(),
        merged_speaker_segments(responses, segment)[items_listed(
            responses.take(k),
            "speaker_segments"@,
        ) + i] == moved_speaker_segment(
            responses[k].metadata.list("speaker_segments"@)[i],
            segment_start(k as nat, segment),
        ),
    decreases responses.len(),
{
    let front = responses.drop_last();
    lemma_speaker_segments_counted(responses, segment);
    lemma_speaker_segments_counted(front, segment);
    lemma_items_listed_before(responses, "speaker_segments"@, k, responses.len() as int);
    assert(responses.take(responses.len() as int) =~= responses);
    if k == responses.len() - 1 {
        assert(responses.take(k) =~= front);
    } else {
        assert(responses.take(k) =~= front.take(k));
        lemma_speaker_segment_at(front, segment, k, i);
    }
}

proof fn lemma_speaker_segments_counted<S, T>(
    responses: Seq<ResponseView<S, T>>,
    segment: Duration,
)
    ensures
        merged_speaker_segments(responses, segment).len() == items_listed(
            responses,
            "speaker_segments"@,
        ),
    decreases responses.len(),
{
    if responses.len() > 0 {
        lemma_speaker_segments_counted(responses.drop_last(), segment);
    }
}

/// Speaker segments keep their order and are moved with their segment, whether or not the
/// segment has a reading: item `i` of segment `k` stands after all those of the segments
/// before it, its start and its end moved by `k` segments where they are numbers, and
/// otherwise as it was. None is lost or made up.
pub proof fn law_speaker_segments_are_moved_with_their_segment<S, T>(
    responses: Seq<ResponseView<S, T>>,
    segment: Duration,
    k: int,
    i: int,
    key: Seq<char>,
)
    requires
        0 <= k < responses.len() <= usize::MAX,
        0 <= i < responses[k].metadata.list("speaker_segments"@).len(),
    ensures
        ({
            let all = merged_speaker_segments(responses, segment);
            let at = items_listed(responses.take(k), "speaker_segments"@) + i;
            let item = responses[k].metadata.list("speaker_segments"@)[i];
            let offset = Offset { segment, index: k as usize };
            &&& all.len() == items_listed(responses, "speaker_segments"@)
            &&& at < all.len()
            &&& offset@ == k * segment@
            &&& match item.get(key) {
                Some(JsonView::Number(n)) => if key == "start"@ || key == "end"@ {
                    all[at].get(key) == Some(JsonView::Moved(Moved { read: n, offset }))
                } else {
                    all[at].get(key) == item.get(key)
                },
                _ => all[at].get(key) == item.get(key),
            }
            &&& !(item is Object) ==> all[at] == item
        }),
{
    lemma_speaker_segment_at(responses, segment, k, i);
    let item = responses[k].metadata.list("speaker_segments"@)[i];
    law_moved_speaker_segment(item, segment_start(k as nat, segment), key);
}

/// One more segment adds its speaker segments after all others, in their order, moved by
/// the segments before, whether or not it has a reading.
pub proof fn law_next_segment_adds_its_speaker_segments<S, T>(
    responses: Seq<ResponseView<S, T>>,
    next: ResponseView<S, T>,
    segment: Duration,
    i: int,
    key: Seq<char>,
)
    requires
        responses.len() <= usize::MAX,
    ensures
        merged_speaker_segments(Seq::<ResponseView<S, T>>::empty(), segment).len() == 0,
        ({
            let old_items = merged_speaker_segments(responses, segment);
            let new_items = merged_speaker_segments(responses.push(next), segment);
            let items = next.metadata.list("speaker_segments"@);
            let offset = Offset { segment, index: responses.len() as usize };
            &&& new_items.len() == old_items.len() + items.len()
            &&& new_items.take(old_items.len() as int) == old_items
            &&& 0 <= i < items.len() ==> {
                let added = new_items[old_items.len() + i];
                &&& match items[i].get(key) {
                    Some(JsonView::Number(n)) => if key == "start"@ || key == "end"@ {
                        added.get(key) == Some(JsonView::Moved(Moved { read: n, offset }))
                    } else {
                        added.get(key) == items[i].get(key)
                    },
                    _ => added.get(key) == items[i].get(key),
                }
                &&& !(items[i] is Object) ==> added == items[i]
            }
        }),
{
    let all = responses.push(next);
    assert(all.drop_last() =~= responses);
    let old_items = merged_speaker_segments(responses, segment);
    let new_items = merged_speaker_segments(all, segment);
    let items = next.metadata.list("speaker_segments"@);
    let offset = segment_start(responses.len(), segment);
    assert(new_items == old_items + moved_speaker_segments(items, offset));
    assert(new_items.take(old_items.len() as int) =~= old_items);
    if 0 <= i < items.len() {
        assert(new_items[old_items.len() + i] == moved_speaker_segment(items[i], offset));
        law_moved_speaker_segment(items[i], offset, key);
    }
}

/// Speaker labels are listed segment by segment, each as it was, from none.
pub proof fn law_next_segment_adds_its_labels<S, T>(
    responses: Seq<ResponseView<S, T>>,
    next: ResponseView<S, T>,
)
    ensures
        merged_labels(Seq::<ResponseView<S, T>>::empty()).len() == 0,
        merged_labels(responses.push(next)) == merged_labels(responses) + next.metadata.list(
            "speaker_labels"@,
        ),
{
    assert(responses.push(next).drop_last() =~= responses);
}

proof fn lemma_first_metadata_at<S, T>(responses: Seq<ResponseView<S, T>>, k: int)
    requires
        0 <= k <= responses.len(),
        forall|l: int| 0 <= l < k ==> (#[trigger] responses[l]).metadata is Null,
        k < responses.len() ==> !(responses[k].metadata is Null),
    ensures
        k < responses.len() ==> first_metadata(responses) == responses[k].metadata,
        k == responses.len() ==> first_metadata(responses) is Null,
    decreases responses.len(),
{
    if responses.len() > 0 {
        let front = responses.drop_last();
        let n = if k < front.len() {
            k
        } else {
            front.len() as int
        };
        assert forall|l: int| 0 <= l < n implies (#[trigger] front[l]).metadata is Null by {
            assert(responses[l].metadata is Null);
        }
        if k < front.len() {
            assert(front[k] == responses[k]);
        } else if k == responses.len() {
            assert(responses[responses.len() - 1].metadata is Null);
        }
        lemma_first_metadata_at(front, n);
    }
}

/// Where no response has metadata, the merge has an empty object.
pub proof fn law_missing_metadata_is_an_empty_object<S, T>(
    merged: ResponseView<Moved<S>, T>,
    responses: Seq<ResponseView<S, T>>,
    segment: Duration,
)
    requires
        is_merge(merged, responses, segment),
        forall|l: int| 0 <= l < responses.len() ==> (#[trigger] responses[l]).metadata is Null,
    ensures
        merged.metadata is Object,
        merged.metadata->Object_0.len() == 0,
{
    lemma_first_metadata_at(responses, responses.len() as int);
}

/// The first metadata that is not `null` is kept: all of it where it is no object, and else
/// every field but the speaker labels and the speaker segments.
pub proof fn law_first_metadata_is_kept<S, T>(
    merged: ResponseView<Moved<S>, T>,
    responses: Seq<ResponseView<S, T>>,
    segment: Duration,
    k: int,
    key: Seq<char>,
)
    requires
        is_merge(merged, responses, segment),
        0 <= k < responses.len(),
        forall|l: int| 0 <= l < k ==> (#[trigger] responses[l]).metadata is Null,
        !(responses[k].metadata is Null),
    ensures
        !(responses[k].metadata is Object) ==> merged.metadata == responses[k].metadata,
        responses[k].metadata is Object ==> merged.metadata is Object,
        key != "speaker_labels"@ && key != "speaker_segments"@ ==> merged.metadata.get(key)
            == responses[k].metadata.get(key),
{
    lemma_first_metadata_at(responses, k);
    if key != "speaker_labels"@ && key != "speaker_segments"@ {
        law_metadata_keeps_other_fields(responses, segment, key);
    }
}

proof fn lemma_first_lists_are_listed<S, T>(
    responses: Seq<ResponseView<S, T>>,
    segment: Duration,
    k: int,
)
    requires
        0 <= k < responses.len(),
    ensures
        responses[k].metadata.list("speaker_labels"@).len() <= merged_labels(responses).len(),
        responses[k].metadata.list("speaker_segments"@).len() <= merged_speaker_segments(
            responses,
            segment,
        ).len(),
    decreases responses.len(),
{
    if k < responses.len() - 1 {
        lemma_first_lists_are_listed(responses.drop_last(), segment, k);
    }
}

/// Where the first metadata is an object, the merge lists the speaker labels and the speaker
/// segments of all segments, and a list that no segment has anything for stays as it was.
pub proof fn law_merge_lists_all_speakers<S, T>(
    merged: ResponseView<Moved<S>, T>,
    responses: Seq<ResponseView<S, T>>,
    segment: Duration,
    k: int,
)
    requires
        is_merge(merged, responses, segment),
        0 <= k < responses.len(),
        forall|l: int| 0 <= l < k ==> (#[trigger] responses[l]).metadata is Null,
        responses[k].metadata is Object,
    ensures
        merged.metadata.list("speaker_labels"@) == merged_labels(responses),
        merged.metadata.list("speaker_segments"@) == merged_speaker_segments(responses, segment),
        merged_labels(responses).len() == 0 ==> merged.metadata.get("speaker_labels"@)
            == responses[k].metadata.get("speaker_labels"@),
        merged_speaker_segments(responses, segment).len() == 0 ==> merged.metadata.get(
            "speaker_segments"@,
        ) == responses[k].metadata.get("speaker_segments"@),
{
    lemma_first_metadata_at(responses, k);
    lemma_first_lists_are_listed(responses, segment, k);
    law_metadata_lists_all_speakers(responses, segment);
    reveal_strlit("speaker_labels");
    reveal_strlit("speaker_segments");
    assert("speaker_labels"@.len() != "speaker_segments"@.len());
    let first = responses[k].metadata;
    let labels = merged_labels(responses);
    let segments = merged_speaker_segments(responses, segment);
    let halfway = with_list(first, "speaker_labels"@, labels);
    law_set_field_reads_back(
        first,
        "speaker_labels"@,
        JsonView::Array(labels),
        "speaker_segments"@,
    );
    law_set_field_reads_back(
        halfway,
        "speaker_segments"@,
        JsonView::Array(segments),
        "speaker_labels"@,
    );
    assert(merged.metadata == merged_metadata(responses, segment));
    if labels.len() == 0 {
        assert(first.list("speaker_labels"@).len() == 0);
        assert(merged.metadata.list("speaker_labels"@) =~= labels);
    }
    if segments.len() == 0 {
        assert(first.list("speaker_segments"@).len() == 0);
        assert(merged.metadata.list("speaker_segments"@) =~= segments);
    }
}

/// In the merge itself, where the first metadata is an object, speaker segment `i` of
/// segment `k` stands after all those of the segments before it, its start and its end moved
/// by `k` segments where they are numbers, whatever was heard in the segment.
pub proof fn law_speaker_segments_of_the_merge<S, T>(
    merged: ResponseView<Moved<S>, T>,
    responses: Seq<ResponseView<S, T>>,
    segment: Duration,
    first: int,
    k: int,
    i: int,
    key: Seq<char>,
)
    requires
        is_merge(merged, responses, segment),
        responses.len() <= usize::MAX,
        0 <= first < responses.len(),
        forall|l: int| 0 <= l < first ==> (#[trigger] responses[l]).metadata is Null,
        responses[first].metadata is Object,
        0 <= k < responses.len(),
        0 <= i < responses[k].metadata.list("speaker_segments"@).len(),
        key == "start"@ || key == "end"@,
    ensures
        ({
            let listed = merged.metadata.list("speaker_segments"@);
            let at = items_listed(responses.take(k), "speaker_segments"@) + i;
            let item = responses[k].metadata.list("speaker_segments"@)[i];
            let offset = Offset { segment, index: k as usize };
            &&& listed.len() == items_listed(responses, "speaker_segments"@)
            &&& at < listed.len()
            &&& offset@ == k * segment@
            &&& match item.get(key) {
                Some(JsonView::Number(n)) => listed[at].get(key) == Some(
                    JsonView::Moved(Moved { read: n, offset }),
                ),
                _ => listed[at].get(key) == item.get(key),
            }
        }),
{
    law_merge_lists_all_speakers(merged, responses, segment, first);
    law_speaker_segments_are_moved_with_their_segment(responses, segment, k, i, key);
}

/// The clock that words and speaker segments of a segment are moved to is the same.
pub proof fn law_words_and_speaker_segments_share_a_clock<S, T>(
    responses: Seq<ResponseView<S, T>>,
    next: ResponseView<S, T>,
    segment: Duration,
    word: int,
    item: int,
    key: Seq<char>,
)
    requires
        responses.len() <= usize::MAX,
        next.channels.len() > 0,
        next.channels[0].len() > 0,
        0 <= word < next.channels[0][0].words.len(),
        0 <= item < next.metadata.list("speaker_segments"@).len(),
        key == "start"@ || key == "end"@,
        next.metadata.list("speaker_segments"@)[item].get(key) is Some,
        next.metadata.list("speaker_segments"@)[item].get(key)->0 is Number,
    ensures
        ({
            let all = responses.push(next);
            let moved_word = merged_words(all, segment)[merged_words(responses, segment).len()
                + word];
            let moved_item = merged_speaker_segments(all, segment)[merged_speaker_segments(
                responses,
                segment,
            ).len() + item];
            match moved_item.get(key) {
                Some(JsonView::Moved(time)) => {
                    &&& time.offset == moved_word.start.offset
                    &&& time.offset == moved_word.end.offset
                },
                _ => false,
            }
        }),
{
    assert(responses.push(next).drop_last() =~= responses);
    law_next_segment_adds_its_speaker_segments(responses, next, segment, item, key);
}

} // verus!
