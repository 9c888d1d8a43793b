//! Trimming and joining of transcripts, and decimal numbers.

use vstd::prelude::*;

verus! {

/// Whether a character has the Unicode property `White_Space`.
pub open spec fn white_space(c: char) -> bool {
    let code = c as u32;
    ||| 0x9 <= code <= 0xd
    ||| code == 0x20
    ||| code == 0x85
    ||| code == 0xa0
    ||| code == 0x1680
    ||| 0x2000 <= code <= 0x200a
    ||| code == 0x2028
    ||| code == 0x2029
    ||| code == 0x202f
    ||| code == 0x205f
    ||| code == 0x3000
}

/// `char::is_whitespace` tells whether a character has the Unicode property `White_Space`.
pub assume_specification[ char::is_whitespace ](c: char) -> (r: bool)
    ensures
        r == white_space(c),
;

/// `s` from its first character that is not white space on.
pub open spec fn trim_start(s: Seq<char>) -> Seq<char>
    decreases s.len(),
{
    if s.len() > 0 && white_space(s.first()) {
        trim_start(s.drop_first())
    } else {
        s
    }
}

/// `s` up to its last character that is not white space.
pub open spec fn trim_end(s: Seq<char>) -> Seq<char>
    decreases s.len(),
{
    if s.len() > 0 && white_space(s.last()) {
        trim_end(s.drop_last())
    } else {
        s
    }
}

/// `s` without the white space at either end.
pub open spec fn trimmed(s: Seq<char>) -> Seq<char> {
    trim_end(trim_start(s))
}

/// The text without the white space at either end.
pub fn trim(s: &str) -> (r: &str)
    ensures
        r@ == trimmed(s@),
{
    let mut chars: Vec<char> = Vec::new();
    for c in iter: s.chars()
        invariant
            iter.seq() == s@,
            chars@ == s@.take(iter.index()),
    {
        chars.push(c);
    }
    assert(chars@ == s@);
    let mut start: usize = 0;
    let mut end: usize = chars.len();
    assert(s@.skip(0) == s@);
    while start < end && chars[start].is_whitespace()
        invariant
            0 <= start <= end,
            end == chars@.len(),
            chars@ == s@,
            trim_start(s@) == trim_start(s@.skip(start as int)),
        decreases end - start,
    {
        assert(s@.skip(start as int).drop_first() == s@.skip(start + 1));
        start = start + 1;
    }
    assert(trim_start(s@) == s@.skip(start as int));
    assert(s@.skip(start as int) == s@.subrange(start as int, end as int));
    while start < end && chars[end - 1].is_whitespace()
        invariant
            0 <= start <= end <= chars@.len(),
            chars@ == s@,
            trimmed(s@) == trim_end(s@.subrange(start as int, end as int)),
        decreases end - start,
    {
        assert(s@.subrange(start as int, end as int).drop_last() == s@.subrange(
            start as int,
            end - 1,
        ));
        end = end - 1;
    }
    s.substring_char(start, end)
}

/// The texts one after the other with `separator` between each two.
pub open spec fn joined(texts: Seq<Seq<char>>, separator: Seq<char>) -> Seq<char>
    decreases texts.len(),
{
    if texts.len() == 0 {
        Seq::empty()
    } else if texts.len() == 1 {
        texts[0]
    } else {
        joined(texts.drop_last(), separator) + separator + texts.last()
    }
}

/// What each of the strings says.
pub open spec fn texts_of(strings: Seq<String>) -> Seq<Seq<char>> {
    strings.map_values(|s: String| s@)
}

/// The strings one after the other with `separator` between each two.
pub fn join(strings: &Vec<String>, separator: &str) -> (r: String)
    ensures
        r@ == joined(texts_of(strings@), separator@),
{
    let mut out: String = String::new();
    let ghost texts = texts_of(strings@);
    let mut i: usize = 0;
    while i < strings.len()
        invariant
            0 <= i <= strings.len(),
            texts == texts_of(strings@),
            out@ == joined(texts.take(i as int), separator@),
        decreases strings.len() - i,
    {
        if i > 0 {
            out.append(separator);
        }
        out.append(strings[i].as_str());
        assert(texts.take(i + 1).drop_last() == texts.take(i as int));
        assert(texts.take(i + 1).last() == strings@[i as int]@);
        i = i + 1;
    }
    assert(texts.take(i as int) == texts);
    out
}

/// The number that a sequence of decimal digits stands for, or `None` where one of the
/// characters is no digit.
pub open spec fn digits_value(s: Seq<char>) -> Option<nat>
    decreases s.len(),
{
    if s.len() == 0 {
        Some(0)
    } else {
        match digits_value(s.drop_last()) {
            Some(value) => if '0' <= s.last() <= '9' {
                Some((value * 10 + (s.last() as int - '0' as int)) as nat)
            } else {
                None
            },
            None => None,
        }
    }
}

/// The number that `s` stands for: an optional plus sign and at least one digit, nothing
/// else, worth no more than a `u64` can hold.
pub open spec fn decimal_u64(s: Seq<char>) -> Option<u64> {
    let digits = if s.len() > 0 && s[0] == '+' {
        s.drop_first()
    } else {
        s
    };
    match digits_value(digits) {
        Some(value) => if digits.len() > 0 && value <= u64::MAX {
            Some(value as u64)
        } else {
            None
        },
        None => None,
    }
}

/// `str::parse` to a `u64` takes an optional plus sign and decimal digits, nothing else;
/// it fails on no digits at all and on a number that is too large.
#[verifier::external_body]
pub(crate) fn parse_u64(s: &str) -> (r: Option<u64>)
    ensures
        r == decimal_u64(s@),
{
    s.parse().ok()
}

proof fn lemma_trim_start_cuts(s: Seq<char>) -> (start: int)
    ensures
        0 <= start <= s.len(),
        trim_start(s) == s.skip(start),
        forall|i: int| 0 <= i < start ==> white_space(#[trigger] s[i]),
        start < s.len() ==> !white_space(s[start]),
    decreases s.len(),
{
    if s.len() > 0 && white_space(s.first()) {
        let rest = s.drop_first();
        let start = lemma_trim_start_cuts(rest);
        assert(rest.skip(start) =~= s.skip(start + 1));
        assert forall|i: int| 0 <= i < start + 1 implies white_space(#[trigger] s[i]) by {
            if i > 0 {
                assert(white_space(rest[i - 1]));
            }
        }
        start + 1
    } else {
        assert(s.skip(0) =~= s);
        0
    }
}

proof fn lemma_trim_end_cuts(s: Seq<char>) -> (end: int)
    ensures
        0 <= end <= s.len(),
        trim_end(s) == s.take(end),
        forall|i: int| end <= i < s.len() ==> white_space(#[trigger] s[i]),
        end > 0 ==> !white_space(s[end - 1]),
    decreases s.len(),
{
    if s.len() > 0 && white_space(s.last()) {
        let rest = s.drop_last();
        let end = lemma_trim_end_cuts(rest);
        assert(rest.take(end) =~= s.take(end));
        assert forall|i: int| end <= i < s.len() implies white_space(#[trigger] s[i]) by {
            if i < s.len() - 1 {
                assert(white_space(rest[i]));
            }
        }
        end
    } else {
        assert(s.take(s.len() as int) =~= s);
        s.len() as int
    }
}

/// Trimming takes the white space off both ends and nothing else: what is left is a run of
/// the text with nothing but white space before and after it, and it neither starts nor
/// ends with white space.
pub proof fn law_trimming_takes_white_space_off_the_ends(s: Seq<char>)
    ensures
        exists|start: int, end: int|
            {
                &&& 0 <= start <= end <= s.len()
                &&& trimmed(s) == #[trigger] s.subrange(start, end)
                &&& forall|i: int| 0 <= i < start ==> white_space(#[trigger] s[i])
                &&& forall|i: int| end <= i < s.len() ==> white_space(#[trigger] s[i])
            },
        trimmed(s).len() > 0 ==> !white_space(trimmed(s).first()) && !white_space(
            trimmed(s).last(),
        ),
{
    let start = lemma_trim_start_cuts(s);
    let rest = s.skip(start);
    let len = lemma_trim_end_cuts(rest);
    assert(rest.take(len) =~= s.subrange(start, start + len));
    assert forall|i: int| start + len <= i < s.len() implies white_space(#[trigger] s[i]) by {
        assert(white_space(rest[i - start]));
    }
    if len > 0 {
        assert(trimmed(s).first() == s[start]);
        assert(trimmed(s).last() == rest[len - 1]);
    }
}

/// Text without white space at its ends is left alone by trimming.
pub proof fn law_trimmed_text_is_left_alone(s: Seq<char>)
    requires
        s.len() > 0 ==> !white_space(s.first()) && !white_space(s.last()),
    ensures
        trimmed(s) == s,
{
}

/// Joining nothing gives nothing, and joining one text gives that text.
pub proof fn law_a_single_text_is_joined_to_itself(text: Seq<char>, separator: Seq<char>)
    ensures
        joined(Seq::empty(), separator) == Seq::<char>::empty(),
        joined(seq![text], separator) == text,
{
}

/// Joining goes piece by piece: two lists joined together are the one joined, the
/// separator once, and the other joined.
pub proof fn law_joining_goes_piece_by_piece(
    first: Seq<Seq<char>>,
    second: Seq<Seq<char>>,
    separator: Seq<char>,
)
    requires
        first.len() > 0,
        second.len() > 0,
    ensures
        joined(first + second, separator) == joined(first, separator) + separator + joined(
            second,
            separator,
        ),
    decreases second.len(),
{
    let all = first + second;
    assert(all.drop_last() =~= first + second.drop_last());
    assert(all.last() == second.last());
    if second.len() == 1 {
        assert(first + second.drop_last() =~= first);
        assert(joined(second, separator) == second[0]);
    } else {
        law_joining_goes_piece_by_piece(first, second.drop_last(), separator);
        assert(joined(all, separator) =~= joined(first, separator) + separator + joined(
            second,
            separator,
        ));
    }
}

/// The strings of a list say what each of them says, in order.
pub proof fn law_texts_keep_their_order(strings: Seq<String>, i: int)
    requires
        0 <= i < strings.len(),
    ensures
        texts_of(strings).len() == strings.len(),
        texts_of(strings)[i] == strings[i]@,
{
}

} // verus!
