use batch_upload::duration::Duration;
use batch_upload::fraction::Fraction;
use batch_upload::json::{Json, Number};
use batch_upload::merge::{merge_segment_responses, speakers_fit};
use batch_upload::moved::{Moved, Offset};
use batch_upload::response::{Alternatives, Channel, Response, Results, Word};
use batch_upload::text::trim;

type Text = &'static str;

fn word(text: Text, start: f64, end: f64, speaker: Option<usize>) -> Word<f64, Text> {
    Word { start, end, speaker, rest: text }
}

fn response(
    metadata: Json,
    transcript: &str,
    words: Vec<Word<f64, Text>>,
) -> Response<f64, Text> {
    Response {
        metadata,
        results: Results {
            channels: vec![Channel {
                alternatives: vec![Alternatives {
                    transcript: transcript.to_string(),
                    confidence: Fraction::new(9, 10),
                    words,
                }],
            }],
        },
    }
}

fn silent(metadata: Json) -> Response<f64, Text> {
    Response { metadata, results: Results { channels: vec![] } }
}

fn object(fields: Vec<(&str, Json)>) -> Json {
    Json::Object(fields.into_iter().map(|(key, value)| (key.to_string(), value)).collect())
}

fn text(s: &str) -> Json {
    Json::Text(s.to_string())
}

fn labels(names: &[&str]) -> Json {
    Json::Array(names.iter().map(|name| text(name)).collect())
}

fn seconds(value: f64) -> Number {
    Number::Float(value.to_bits())
}

/// A number of a speaker segment of segment `index`, in the merge.
fn moved(index: usize, read: Number) -> Json {
    Json::Moved(Moved { read, offset: start_of(index) })
}

/// The value as text, to tell values apart.
fn print(json: &Json) -> String {
    format!("{json:?}")
}

fn minute() -> Duration {
    Duration::from_secs(60)
}

fn merge(responses: Vec<Response<f64, Text>>) -> Response<Moved<f64>, Text> {
    assert!(speakers_fit(&responses));
    merge_segment_responses(responses, minute())
}

fn reading(response: &Response<Moved<f64>, Text>) -> &Alternatives<Moved<f64>, Text> {
    assert_eq!(response.results.channels.len(), 1);
    assert_eq!(response.results.channels[0].alternatives.len(), 1);
    &response.results.channels[0].alternatives[0]
}

/// What is to be added to the times of segment `index`.
fn start_of(index: usize) -> Offset {
    Offset { segment: minute(), index }
}

/// A time of segment `index`.
fn at(index: usize, read: f64) -> Moved<f64> {
    Moved { read, offset: start_of(index) }
}

type Row = (Text, Moved<f64>, Moved<f64>, Option<usize>);

fn rows(response: &Response<Moved<f64>, Text>) -> Vec<Row> {
    reading(response).words.iter().map(|w| (w.rest, w.start, w.end, w.speaker)).collect()
}

#[test]
fn nothing_merges_to_nothing() {
    let merged = merge(vec![]);
    assert_eq!(print(&merged.metadata), print(&object(vec![])));
    assert_eq!(reading(&merged).transcript, "");
    assert_eq!(reading(&merged).confidence, Fraction::one());
    assert!(reading(&merged).words.is_empty());
}

#[test]
fn times_are_counted_on() {
    let merged = merge(vec![
        response(Json::Null, "one", vec![word("one", 1.0, 2.0, None)]),
        response(Json::Null, "two", vec![word("two", 0.5, 1.0, None)]),
        response(Json::Null, "three", vec![word("three", 0.0, 0.25, None)]),
    ]);
    assert_eq!(
        rows(&merged),
        vec![
            ("one", at(0, 1.0), at(0, 2.0), None),
            ("two", at(1, 0.5), at(1, 1.0), None),
            ("three", at(2, 0.0), at(2, 0.25), None),
        ]
    );
    let starts: Vec<f64> = rows(&merged)
        .iter()
        .map(|row| row.1.read + row.1.offset.segment.as_secs() as f64 * row.1.offset.index as f64)
        .collect();
    assert_eq!(starts, vec![1.0, 60.5, 120.0]);
    assert_eq!(reading(&merged).transcript, "one two three");
    assert_eq!(reading(&merged).confidence, Fraction::one());
}

#[test]
fn speakers_are_counted_on() {
    let merged = merge(vec![
        response(
            Json::Null,
            "",
            vec![
                word("a", 0.0, 1.0, Some(0)),
                word("b", 1.0, 2.0, Some(2)),
                word("c", 2.0, 3.0, None),
            ],
        ),
        response(Json::Null, "", vec![word("d", 0.0, 1.0, Some(0)), word("e", 1.0, 2.0, Some(1))]),
        response(Json::Null, "", vec![word("f", 0.0, 1.0, Some(0))]),
    ]);
    let speakers: Vec<Option<usize>> = rows(&merged).into_iter().map(|row| row.3).collect();
    assert_eq!(speakers, vec![Some(0), Some(2), None, Some(3), Some(4), Some(5)]);
}

#[test]
fn labels_count_as_speakers() {
    let labelled = |names: &[&str]| object(vec![("speaker_labels", labels(names))]);
    let merged = merge(vec![
        response(labelled(&["ann", "bob", "cem"]), "", vec![word("a", 0.0, 1.0, Some(0))]),
        response(labelled(&["dee"]), "", vec![word("b", 0.0, 1.0, Some(0))]),
    ]);
    let speakers: Vec<Option<usize>> = rows(&merged).into_iter().map(|row| row.3).collect();
    assert_eq!(speakers, vec![Some(0), Some(3)]);
    assert_eq!(
        print(&merged.metadata),
        print(&labelled(&["ann", "bob", "cem", "dee"]))
    );
}

#[test]
fn segments_without_a_reading_take_up_no_speakers() {
    let merged = merge(vec![
        silent(object(vec![("speaker_labels", labels(&["ann"]))])),
        response(Json::Null, "hello", vec![word("hello", 0.0, 1.0, Some(0))]),
    ]);
    assert_eq!(rows(&merged), vec![("hello", at(1, 0.0), at(1, 1.0), Some(0))]);
    assert_eq!(
        print(&merged.metadata),
        print(&object(vec![("speaker_labels", labels(&["ann"]))]))
    );
}

#[test]
fn channels_without_readings_are_skipped() {
    let empty = Response {
        metadata: Json::Null,
        results: Results { channels: vec![Channel { alternatives: vec![] }] },
    };
    let merged = merge(vec![
        empty,
        response(Json::Null, "x", vec![word("x", 0.0, 1.0, None)]),
    ]);
    assert_eq!(rows(&merged), vec![("x", at(1, 0.0), at(1, 1.0), None)]);
}

#[test]
fn only_the_first_reading_of_the_first_channel_counts() {
    let mut first = response(Json::Null, "best", vec![word("best", 0.0, 1.0, None)]);
    first.results.channels[0].alternatives.push(Alternatives {
        transcript: "second best".to_string(),
        confidence: Fraction::one(),
        words: vec![],
    });
    first.results.channels.push(Channel { alternatives: vec![] });
    let merged = merge(vec![first]);
    assert_eq!(reading(&merged).transcript, "best");
    assert_eq!(rows(&merged), vec![("best", at(0, 0.0), at(0, 1.0), None)]);
}

#[test]
fn transcripts_are_trimmed_and_joined() {
    let merged = merge(vec![
        response(Json::Null, "  hello there\n", vec![]),
        response(Json::Null, " \t ", vec![]),
        response(Json::Null, "", vec![]),
        response(Json::Null, "\u{2003}général\u{a0}", vec![]),
    ]);
    assert_eq!(reading(&merged).transcript, "hello there général");
}

#[test]
fn white_space_is_trimmed_and_nothing_else() {
    let spaces = "\u{9}\u{a}\u{b}\u{c}\u{d}\u{20}\u{85}\u{a0}\u{1680}\u{2000}\u{2001}\u{2002}\u{2003}\u{2004}\u{2005}\u{2006}\u{2007}\u{2008}\u{2009}\u{200a}\u{2028}\u{2029}\u{202f}\u{205f}\u{3000}";
    assert_eq!(trim(&format!("{spaces}a{spaces}b{spaces}")), format!("a{spaces}b"));
    assert_eq!(trim(spaces), "");
    for other in ["\u{8}", "\u{e}", "\u{1f}", "\u{200b}", "\u{2060}", "\u{feff}"] {
        assert_eq!(trim(other), other);
    }
    // All characters, against the standard library's own answer.
    for code in 0..=0x10ffffu32 {
        if let Some(c) = char::from_u32(code) {
            assert_eq!(spaces.contains(c), c.is_whitespace());
        }
    }
}

#[test]
fn speaker_segments_are_moved() {
    let segment = |start: Json, end: Json| {
        object(vec![("speaker", text("ann")), ("start", start), ("end", end)])
    };
    let listed = |items: Vec<Json>| object(vec![("speaker_segments", Json::Array(items))]);
    let merged = merge(vec![
        silent(listed(vec![
            segment(Json::Number(seconds(1e-12)), Json::Number(Number::PosInt(2))),
        ])),
        silent(listed(vec![
            segment(Json::Number(Number::PosInt(3)), Json::Number(seconds(4.5))),
            segment(Json::Number(Number::NegInt(-1)), text("late")),
            text("not an object"),
            object(vec![("end", Json::Number(seconds(1.0))), ("seen", Json::Number(seconds(1.0)))]),
        ])),
    ]);
    assert_eq!(
        print(&merged.metadata),
        print(&listed(vec![
            segment(moved(0, seconds(1e-12)), moved(0, Number::PosInt(2))),
            segment(moved(1, Number::PosInt(3)), moved(1, seconds(4.5))),
            segment(moved(1, Number::NegInt(-1)), text("late")),
            text("not an object"),
            object(vec![("end", moved(1, seconds(1.0))), ("seen", Json::Number(seconds(1.0)))]),
        ]))
    );
}

#[test]
fn first_metadata_is_kept() {
    let merged = merge(vec![
        silent(Json::Null),
        silent(object(vec![("model", text("nova")), ("speaker_labels", labels(&["ann"]))])),
        silent(object(vec![("model", text("other")), ("speaker_labels", labels(&["bob"]))])),
    ]);
    assert_eq!(
        print(&merged.metadata),
        print(&object(vec![
            ("model", text("nova")),
            ("speaker_labels", labels(&["ann", "bob"]))
        ]))
    );
}

#[test]
fn lists_are_added_to_metadata_that_lacks_them() {
    let merged = merge(vec![
        silent(object(vec![("model", text("nova"))])),
        silent(object(vec![("speaker_labels", labels(&["bob"]))])),
    ]);
    assert_eq!(
        print(&merged.metadata),
        print(&object(vec![("model", text("nova")), ("speaker_labels", labels(&["bob"]))]))
    );
}

#[test]
fn metadata_that_is_no_object_is_left_alone() {
    let merged = merge(vec![
        silent(text("plain")),
        silent(object(vec![("speaker_labels", labels(&["bob"]))])),
    ]);
    assert_eq!(print(&merged.metadata), print(&text("plain")));
}

#[test]
fn lists_that_are_no_arrays_are_ignored() {
    let merged = merge(vec![silent(object(vec![
        ("speaker_labels", text("ann")),
        ("speaker_segments", Json::Bool(true)),
    ]))]);
    assert_eq!(
        print(&merged.metadata),
        print(&object(vec![
            ("speaker_labels", text("ann")),
            ("speaker_segments", Json::Bool(true))
        ]))
    );
}

#[test]
fn one_segment_is_left_as_it_was() {
    let merged = merge(vec![response(
        object(vec![("speaker_labels", labels(&["ann"]))]),
        "hi",
        vec![word("hi", -3.0, 7.0, Some(4))],
    )]);
    assert_eq!(rows(&merged), vec![("hi", at(0, -3.0), at(0, 7.0), Some(4))]);
    assert_eq!(
        print(&merged.metadata),
        print(&object(vec![("speaker_labels", labels(&["ann"]))]))
    );
}

#[test]
fn times_are_kept_as_they_were_read() {
    let merged = merge(vec![
        response(Json::Null, "", vec![word("a", 1e-300, f64::MAX, None)]),
        response(Json::Null, "", vec![word("b", 0.1 + 0.2, f64::INFINITY, None)]),
    ]);
    assert_eq!(
        rows(&merged),
        vec![
            ("a", at(0, 1e-300), at(0, f64::MAX), None),
            ("b", at(1, 0.1 + 0.2), at(1, f64::INFINITY), None)
        ]
    );
}

#[test]
fn too_many_speakers_do_not_fit() {
    let with = |speaker: usize| response(Json::Null, "", vec![word("a", 0.0, 1.0, Some(speaker))]);
    assert!(!speakers_fit(&vec![with(usize::MAX)]));
    assert!(speakers_fit(&vec![with(usize::MAX - 1)]));
    assert!(!speakers_fit(&vec![with(usize::MAX - 1), with(0)]));
    assert!(speakers_fit(&Vec::<Response<f64, Text>>::new()));
}

#[test]
fn json_fields() {
    let mut value = object(vec![("a", Json::Bool(true)), ("b", Json::Null)]);
    assert_eq!(value.get("a").map(print), Some(print(&Json::Bool(true))));
    assert!(value.get("c").is_none());
    assert!(text("a").get("a").is_none());
    value.insert("a", text("new"));
    value.insert("c", text("added"));
    assert_eq!(
        print(&value),
        print(&object(vec![("a", text("new")), ("b", Json::Null), ("c", text("added"))]))
    );
    assert_eq!(print(&value.duplicate()), print(&value));
    assert!(Json::Null.is_null());
    assert!(!value.is_null());
    assert_eq!(Json::from_items(vec![Json::Null]).as_array().map(|items| items.len()), Some(1));
    assert!(value.as_array().is_none());
}
