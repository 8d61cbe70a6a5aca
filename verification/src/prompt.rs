//! What the operator is shown, and how an answer is read.
//!
//! The terminal is the caller's. It prints the menu of a bucket, reads a
//! line, and asks [`parse_choice`] what the line says; it asks again for as
//! long as the line is no number.

use crate::streams::StreamResult;
use crate::text::{decimal, push_decimal, texts};
use vstd::prelude::*;

verus! {

/// The line that opens the menu of the bucket `name`.
pub open spec fn menu_title(name: Seq<char>) -> Seq<char> {
    "select "@ + name + " track:"@
}

/// The menu line of the stream at position `idx` of its bucket: the
/// position, then the name of the codec.
pub open spec fn menu_line(idx: nat, codec_name: Seq<char>) -> Seq<char> {
    decimal(idx) + ": "@ + codec_name
}

/// The menu of a bucket: the title, then one line per stream in the
/// bucket's order.
pub open spec fn menu_lines(name: Seq<char>, streams: Seq<StreamResult>) -> Seq<Seq<char>> {
    Seq::new(
        streams.len() + 1,
        |i: int|
            if i == 0 {
                menu_title(name)
            } else {
                menu_line((i - 1) as nat, streams[i - 1]@.codec_name)
            },
    )
}

/// Lays out the menu from which the operator picks a stream of the bucket
/// `name`.
pub fn menu(name: &str, streams: &Vec<StreamResult>) -> (lines: Vec<String>)
    ensures
        texts(lines@) == menu_lines(name@, streams@),
{
    let mut lines: Vec<String> = Vec::new();
    let mut title = "select ".to_owned();
    title.append(name);
    title.append(" track:");
    lines.push(title);
    let mut idx: usize = 0;
    while idx < streams.len()
        invariant
            idx <= streams.len(),
            lines@.len() == idx + 1,
            forall|k: int|
                0 <= k < lines@.len() ==> (#[trigger] lines@[k])@ == menu_lines(
                    name@,
                    streams@,
                )[k],
        decreases streams.len() - idx,
    {
        let mut line = String::new();
        push_decimal(&mut line, idx as u64);
        line.append(": ");
        line.append(streams[idx].codec_name.as_str());
        assert(line@ =~= menu_line(idx as nat, streams@[idx as int]@.codec_name));
        lines.push(line);
        idx += 1;
    }
    assert(texts(lines@) =~= menu_lines(name@, streams@));
    lines
}

/// White space: the characters that are dropped from both ends of an
/// answer.
pub open spec fn is_space(c: char) -> bool {
    let u = c as u32;
    ||| 0x09 <= u <= 0x0d
    ||| u == 0x20
    ||| u == 0x85
    ||| u == 0xa0
    ||| u == 0x1680
    ||| 0x2000 <= u <= 0x200a
    ||| u == 0x2028
    ||| u == 0x2029
    ||| u == 0x202f
    ||| u == 0x205f
    ||| u == 0x3000
}

/// The first position of `s` that holds no white space; the length of `s`
/// if there is none.
pub open spec fn text_start(s: Seq<char>) -> int
    decreases s.len(),
{
    if s.len() > 0 && is_space(s[0]) {
        1 + text_start(s.drop_first())
    } else {
        0
    }
}

/// The position behind the last character of `s` that is no white space;
/// zero if there is none.
pub open spec fn text_end(s: Seq<char>) -> int
    decreases s.len(),
{
    if s.len() > 0 && is_space(s.last()) {
        text_end(s.drop_last())
    } else {
        s.len() as int
    }
}

/// `s` without the white space at its ends.
pub open spec fn trimmed(s: Seq<char>) -> Seq<char> {
    if text_start(s) <= text_end(s) {
        s.subrange(text_start(s), text_end(s))
    } else {
        Seq::empty()
    }
}

/// The value of a decimal digit.
pub open spec fn digit_value(c: char) -> Option<nat> {
    let u = c as u32;
    if 0x30 <= u <= 0x39 {
        Some((u - 0x30) as nat)
    } else {
        None
    }
}

/// The number that a run of decimal digits stands for; `None` if `s` is
/// empty or holds anything but digits.
pub open spec fn digits_value(s: Seq<char>) -> Option<nat>
    decreases s.len(),
{
    if s.len() == 0 {
        None
    } else if s.len() == 1 {
        digit_value(s[0])
    } else {
        match (digits_value(s.drop_last()), digit_value(s.last())) {
            (Some(high), Some(low)) => Some(high * 10 + low),
            _ => None,
        }
    }
}

/// The number that `s` stands for: a run of decimal digits, which a plus
/// sign may precede.
pub open spec fn number_value(s: Seq<char>) -> Option<nat> {
    if s.len() > 0 && s[0] == '+' {
        digits_value(s.drop_first())
    } else {
        digits_value(s)
    }
}

/// The position that a line of the operator chooses: the number that the
/// line holds between white space, where it holds one that a position can
/// be.
pub open spec fn choice_of(line: Seq<char>) -> Option<usize> {
    match number_value(trimmed(line)) {
        Some(n) => if n <= usize::MAX {
            Some(n as usize)
        } else {
            None
        },
        None => None,
    }
}

/// What a line of the operator says about a bucket.
#[derive(Debug, Clone, Copy, PartialEq, Eq, Structural)]
pub enum Answer {
    /// The line holds a position of the bucket.
    Picked(usize),
    /// The line holds a number that is no position of the bucket.
    OutOfRange(usize),
    /// The line holds no number, or one too large to be a position.
    NotANumber,
}

/// What `line` says about a bucket of `len` streams.
pub open spec fn answer_of(line: Seq<char>, len: nat) -> Answer {
    match choice_of(line) {
        Some(idx) => if idx < len {
            Answer::Picked(idx)
        } else {
            Answer::OutOfRange(idx)
        },
        None => Answer::NotANumber,
    }
}

/// Whether `c` is white space.
fn space(c: char) -> (yes: bool)
    ensures
        yes == is_space(c),
{
    let u = c as u32;
    (0x09 <= u && u <= 0x0d) || u == 0x20 || u == 0x85 || u == 0xa0 || u == 0x1680 || (0x2000 <= u
        && u <= 0x200a) || u == 0x2028 || u == 0x2029 || u == 0x202f || u == 0x205f || u
        == 0x3000
}

/// The characters of a string.
fn chars_of(s: &str) -> (chars: Vec<char>)
    ensures
        chars@ == s@,
{
    let mut chars: Vec<char> = Vec::new();
    for c in it: s.chars()
        invariant
            it.seq() == s@,
            chars@ == s@.take(it.index()),
    {
        chars.push(c);
        assert(s@.take(it.index() + 1) =~= s@.take(it.index()).push(c));
    }
    assert(s@.take(s@.len() as int) =~= s@);
    chars
}

/// White space alone stands before the start of the text, and none at it.
proof fn lemma_text_start(s: Seq<char>)
    ensures
        0 <= text_start(s) <= s.len(),
        forall|k: int| 0 <= k < text_start(s) ==> is_space(s[k]),
        text_start(s) < s.len() ==> !is_space(s[text_start(s)]),
    decreases s.len(),
{
    if s.len() > 0 && is_space(s[0]) {
        let rest = s.drop_first();
        lemma_text_start(rest);
        assert forall|k: int| 0 <= k < text_start(s) implies is_space(s[k]) by {
            if k > 0 {
                assert(s[k] == rest[k - 1]);
            }
        }
        if text_start(s) < s.len() {
            assert(s[text_start(s)] == rest[text_start(rest)]);
        }
    }
}

/// White space alone stands from the end of the text on, and none before
/// it.
proof fn lemma_text_end(s: Seq<char>)
    ensures
        0 <= text_end(s) <= s.len(),
        forall|k: int| text_end(s) <= k < s.len() ==> is_space(s[k]),
        text_end(s) > 0 ==> !is_space(s[text_end(s) - 1]),
    decreases s.len(),
{
    if s.len() > 0 && is_space(s.last()) {
        let rest = s.drop_last();
        lemma_text_end(rest);
        assert forall|k: int| text_end(s) <= k < s.len() implies is_space(s[k]) by {
            if k < rest.len() {
                assert(s[k] == rest[k]);
            }
        }
        if text_end(s) > 0 {
            assert(s[text_end(s) - 1] == rest[text_end(rest) - 1]);
        }
    }
}

/// A position is the start of the text when white space alone stands
/// before it and none stands at it.
proof fn lemma_text_start_is(s: Seq<char>, at: int)
    requires
        0 <= at <= s.len(),
        forall|k: int| 0 <= k < at ==> is_space(s[k]),
        at < s.len() ==> !is_space(s[at]),
    ensures
        text_start(s) == at,
{
    lemma_text_start(s);
}

/// A position is the end of the text when white space alone stands from
/// it on and none stands before it.
proof fn lemma_text_end_is(s: Seq<char>, at: int)
    requires
        0 <= at <= s.len(),
        forall|k: int| at <= k < s.len() ==> is_space(s[k]),
        at > 0 ==> !is_space(s[at - 1]),
    ensures
        text_end(s) == at,
{
    lemma_text_end(s);
}

/// A run of digits stands for no less than any run that it starts with,
/// and holds digits alone.
proof fn lemma_digits_prefix(s: Seq<char>, n: int)
    requires
        1 <= n <= s.len(),
    ensures
        digits_value(s) is Some ==> digits_value(s.take(n)) is Some && digits_value(s.take(n))->0
            <= digits_value(s)->0,
        digits_value(s.take(n)) is None ==> digits_value(s) is None,
    decreases s.len(),
{
    if n == s.len() {
        assert(s.take(n) =~= s);
    } else {
        let rest = s.drop_last();
        assert(rest.take(n) =~= s.take(n));
        lemma_digits_prefix(rest, n);
    }
}

/// Reads the position that a line of the operator chooses. `None` stands
/// for a line that holds no such number: the caller asks again.
pub fn parse_choice(line: &str) -> (choice: Option<usize>)
    ensures
        choice == choice_of(line@),
{
    let chars = chars_of(line);
    let n = chars.len();
    // drop the white space at both ends
    let mut start: usize = 0;
    while start < n && space(chars[start])
        invariant
            start <= n == chars@.len(),
            forall|k: int| 0 <= k < start ==> is_space(chars@[k]),
        decreases n - start,
    {
        start += 1;
    }
    let mut end: usize = n;
    while end > 0 && space(chars[end - 1])
        invariant
            end <= n == chars@.len(),
            forall|k: int| end <= k < n ==> is_space(chars@[k]),
        decreases end,
    {
        end -= 1;
    }
    proof {
        lemma_text_start_is(chars@, start as int);
        lemma_text_end_is(chars@, end as int);
    }
    if start >= end {
        assert(trimmed(chars@).len() == 0);
        return None;
    }
    let ghost text = trimmed(chars@);
    assert(text == chars@.subrange(start as int, end as int));
    // a plus sign may stand before the digits
    let mut at: usize = start;
    if chars[at] == '+' {
        at += 1;
    }
    let ghost digits = chars@.subrange(at as int, end as int);
    assert(number_value(trimmed(line@)) == digits_value(digits)) by {
        if text[0] == '+' {
            assert(text.drop_first() =~= digits);
        } else {
            assert(text =~= digits);
        }
    }
    if at >= end {
        return None;
    }
    let first = at;
    let mut value: usize = 0;
    while at < end
        invariant
            first <= at <= end <= chars@.len(),
            first < end,
            digits == chars@.subrange(first as int, end as int),
            number_value(trimmed(line@)) == digits_value(digits),
            at > first ==> digits_value(digits.take(at - first)) == Some(value as nat),
            at == first ==> value == 0,
        decreases end - at,
    {
        let u = chars[at] as u32;
        let ghost upto = digits.take(at - first + 1);
        proof {
            assert(upto.last() == chars@[at as int]);
            assert(upto.drop_last() =~= digits.take(at - first));
            lemma_digits_prefix(digits, at - first + 1);
        }
        if u < 0x30 || u > 0x39 {
            return None;
        }
        let digit = (u - 0x30) as usize;
        let next = match value.checked_mul(10) {
            Some(tens) => tens.checked_add(digit),
            None => None,
        };
        match next {
            Some(v) => {
                value = v;
            },
            None => {
                assert(digits_value(upto) is Some && digits_value(upto)->0 > usize::MAX);
                return None;
            },
        }
        at += 1;
    }
    assert(digits.take(at - first) =~= digits);
    Some(value)
}

/// Reads a line of the operator as an answer to the menu of a bucket of
/// `len` streams. Only `Picked` ends the asking.
pub fn read_answer(line: &str, len: usize) -> (answer: Answer)
    ensures
        answer == answer_of(line@, len as nat),
{
    match parse_choice(line) {
        Some(idx) => if idx < len {
            Answer::Picked(idx)
        } else {
            Answer::OutOfRange(idx)
        },
        None => Answer::NotANumber,
    }
}

} // verus!
