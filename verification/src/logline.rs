//! The activity log's line format: one closed segment per line, as a JSON
//! object with its five fields in a fixed order and no white space.

use vstd::prelude::*;
use vstd::string::StringExecFns;
use crate::activity::{ActivityLog, SegmentView};
use crate::quoted::{
    escaped, lemma_content_round_trip, push_escaped, read_content, take_content,
};
use crate::text::{chars_of, push_char};
use crate::timestamp::{lemma_timestamp_round_trip, read_timestamp, take_timestamp};

verus! {

/// How the capture flag closes a line.
pub open spec fn flag_text(is_captured: bool) -> Seq<char> {
    if is_captured {
        "true}"@
    } else {
        "false}"@
    }
}

/// The line that records a segment, without the line terminator.
pub open spec fn line_text(segment: SegmentView) -> Seq<char> {
    "{\"start_time\":\""@ + (segment.start_time.text() + ("\",\"end_time\":\""@ + (
    segment.end_time.text() + ("\",\"app_name\":\""@ + (escaped(segment.app_name) + (seq!['"'] + (
    ",\"window_title\":\""@ + (escaped(segment.window_title) + (seq!['"'] + (
    ",\"is_captured\":"@ + flag_text(segment.is_captured)))))))))))
}

/// The number of characters of `word` where `t` starts with it.
pub open spec fn expect(t: Seq<char>, word: Seq<char>) -> Option<nat> {
    if word.len() <= t.len() && t.subrange(0, word.len() as int) == word {
        Some(word.len())
    } else {
        None
    }
}

/// The segment whose fields are written in `t` in the order and with the
/// punctuation of a log line; `None` where `t` has another shape.
pub open spec fn read_fields(t: Seq<char>) -> Option<SegmentView> {
    let p0 = expect(t, "{\"start_time\":\""@);
    let a = p0->0 as int;
    let start = take_timestamp(t.skip(a));
    let b = a + (start->0).1;
    let p1 = expect(t.skip(b), "\",\"end_time\":\""@);
    let c = b + p1->0;
    let end = take_timestamp(t.skip(c));
    let d = c + (end->0).1;
    let p2 = expect(t.skip(d), "\",\"app_name\":\""@);
    let e = d + p2->0;
    let app = take_content(t.skip(e));
    let f = e + (app->0).1;
    let p3 = expect(t.skip(f), ",\"window_title\":\""@);
    let g = f + p3->0;
    let title = take_content(t.skip(g));
    let h = g + (title->0).1;
    let p4 = expect(t.skip(h), ",\"is_captured\":"@);
    let i = h + p4->0;
    let yes = t.skip(i) == "true}"@;
    let no = t.skip(i) == "false}"@;
    if p0 is Some && start is Some && p1 is Some && end is Some && p2 is Some && app is Some
        && p3 is Some && title is Some && p4 is Some && (yes || no) {
        Some(
            SegmentView {
                start_time: (start->0).0,
                end_time: (end->0).0,
                app_name: (app->0).0,
                window_title: (title->0).0,
                is_captured: yes,
            },
        )
    } else {
        None
    }
}

/// The segment that the line `t` records: `t` is exactly the line of a
/// well-formed segment, or it records none.
pub open spec fn parse_line(t: Seq<char>) -> Option<SegmentView> {
    match read_fields(t) {
        Some(segment) => if segment.wf() && line_text(segment) == t {
            Some(segment)
        } else {
            None
        },
        None => None,
    }
}

/// Writes a segment as its log line, without the line terminator.
pub fn log_line(segment: &ActivityLog) -> (line: String)
    ensures
        line@ == line_text(segment@),
{
    let mut line = String::from_str("{\"start_time\":\"");
    segment.start_time.push_text(&mut line);
    line.append("\",\"end_time\":\"");
    segment.end_time.push_text(&mut line);
    line.append("\",\"app_name\":\"");
    push_escaped(&mut line, segment.app_name.as_str());
    push_char(&mut line, '"');
    line.append(",\"window_title\":\"");
    push_escaped(&mut line, segment.window_title.as_str());
    push_char(&mut line, '"');
    line.append(",\"is_captured\":");
    if segment.is_captured {
        line.append("true}");
    } else {
        line.append("false}");
    }
    assert(line@ =~= line_text(segment@));
    line
}

/// Checks that `word` stands in `chars` at `pos`, and gives the position
/// after it.
fn read_word(chars: &Vec<char>, pos: usize, word: &str) -> (r: Option<usize>)
    requires
        pos <= chars.len(),
    ensures
        match expect(chars@.skip(pos as int), word@) {
            Some(n) => r == Some((pos + n) as usize) && pos + n <= chars.len(),
            None => r is None,
        },
{
    let letters = chars_of(word);
    let ghost t = chars@.skip(pos as int);
    if letters.len() > chars.len() - pos {
        return None;
    }
    let mut k: usize = 0;
    while k < letters.len()
        invariant
            k <= letters.len(),
            pos + letters.len() <= chars.len(),
            t == chars@.skip(pos as int),
            letters@ == word@,
            forall|j: int| 0 <= j < k ==> chars@[pos + j] == letters@[j],
        decreases letters.len() - k,
    {
        if chars[pos + k] != letters[k] {
            assert(t[k as int] == chars@[pos + k]);
            assert(t.subrange(0, letters.len() as int)[k as int] != letters@[k as int]);
            return None;
        }
        k += 1;
    }
    assert(t.subrange(0, letters.len() as int) =~= letters@);
    Some(pos + letters.len())
}

/// Whether `chars` from `pos` on is exactly `word`.
fn ends_with_word(chars: &Vec<char>, pos: usize, word: &str) -> (r: bool)
    requires
        pos <= chars.len(),
    ensures
        r == (chars@.skip(pos as int) == word@),
{
    let ghost t = chars@.skip(pos as int);
    match read_word(chars, pos, word) {
        Some(end) => {
            assert(end == chars.len() ==> t.subrange(0, word@.len() as int) == t);
            end == chars.len()
        },
        None => {
            assert(t == word@ ==> t.subrange(0, word@.len() as int) == word@);
            false
        },
    }
}

/// Reads a log line back into the segment it records. Only a line that
/// `log_line` writes for a well-formed segment is accepted.
pub fn parse_log_line(text: &str) -> (r: Option<ActivityLog>)
    ensures
        match r {
            Some(segment) => parse_line(text@) == Some(segment@),
            None => parse_line(text@) is None,
        },
{
    let chars = chars_of(text);
    let ghost t = chars@;
    assert(t.skip(0) == t);
    let a = match read_word(&chars, 0, "{\"start_time\":\"") {
        Some(p) => p,
        None => { return None; },
    };
    let (start_time, b) = match read_timestamp(&chars, a) {
        Some(found) => found,
        None => { return None; },
    };
    let c = match read_word(&chars, b, "\",\"end_time\":\"") {
        Some(p) => p,
        None => { return None; },
    };
    let (end_time, d) = match read_timestamp(&chars, c) {
        Some(found) => found,
        None => { return None; },
    };
    let e = match read_word(&chars, d, "\",\"app_name\":\"") {
        Some(p) => p,
        None => { return None; },
    };
    let (app_name, f) = match read_content(&chars, e) {
        Some(found) => found,
        None => { return None; },
    };
    let g = match read_word(&chars, f, ",\"window_title\":\"") {
        Some(p) => p,
        None => { return None; },
    };
    let (window_title, h) = match read_content(&chars, g) {
        Some(found) => found,
        None => { return None; },
    };
    let i = match read_word(&chars, h, ",\"is_captured\":") {
        Some(p) => p,
        None => { return None; },
    };
    let yes = ends_with_word(&chars, i, "true}");
    let no = ends_with_word(&chars, i, "false}");
    if !yes && !no {
        return None;
    }
    let segment = ActivityLog { start_time, end_time, app_name, window_title, is_captured: yes };
    assert(read_fields(t) == Some(segment@));
    if !segment.start_time.is_valid() || !segment.end_time.is_valid()
        || !segment.end_time.is_not_before(&segment.start_time) {
        return None;
    }
    let line = log_line(&segment);
    let given = String::from_str(text);
    if line == given {
        Some(segment)
    } else {
        None
    }
}

/// Where `t` from `at` on is `piece` followed by `rest`, `piece` is found
/// there and `rest` follows it.
proof fn lemma_step(t: Seq<char>, at: int, piece: Seq<char>, rest: Seq<char>)
    requires
        0 <= at <= t.len(),
        t.skip(at) == piece + rest,
    ensures
        expect(t.skip(at), piece) == Some(piece.len()),
        at + piece.len() <= t.len(),
        t.skip(at + piece.len()) == rest,
{
    assert((piece + rest).subrange(0, piece.len() as int) == piece);
    assert((piece + rest).len() == t.len() - at);
    assert(t.skip(at).skip(piece.len() as int) == t.skip(at + piece.len()));
    assert((piece + rest).skip(piece.len() as int) == rest);
}

proof fn lemma_quoted_round_trip(s: Seq<char>, rest: Seq<char>)
    ensures
        take_content(escaped(s) + (seq!['"'] + rest)) == Some((s, escaped(s).len() + 1)),
{
    lemma_content_round_trip(s, rest);
    assert(escaped(s) + (seq!['"'] + rest) == escaped(s) + seq!['"'] + rest);
}

proof fn lemma_flags_differ()
    ensures
        "true}"@ != "false}"@,
{
    reveal_strlit("true}");
    reveal_strlit("false}");
    assert("true}"@[0] != "false}"@[0]);
}

/// The fields read from a text whose parts are found one after another.
proof fn lemma_assemble(
    t: Seq<char>,
    segment: SegmentView,
    n1: nat,
    n2: nat,
    n3: nat,
    n4: nat,
)
    requires
        expect(t, "{\"start_time\":\""@) is Some,
        ({
            let a = expect(t, "{\"start_time\":\""@)->0 as int;
            let b = a + n1;
            let c = b + "\",\"end_time\":\""@.len();
            let d = c + n2;
            let e = d + "\",\"app_name\":\""@.len();
            let f = e + n3;
            let g = f + ",\"window_title\":\""@.len();
            let h = g + n4;
            let i = h + ",\"is_captured\":"@.len();
            &&& take_timestamp(t.skip(a)) == Some((segment.start_time, n1))
            &&& expect(t.skip(b), "\",\"end_time\":\""@) is Some
            &&& take_timestamp(t.skip(c)) == Some((segment.end_time, n2))
            &&& expect(t.skip(d), "\",\"app_name\":\""@) is Some
            &&& take_content(t.skip(e)) == Some((segment.app_name, n3))
            &&& expect(t.skip(f), ",\"window_title\":\""@) is Some
            &&& take_content(t.skip(g)) == Some((segment.window_title, n4))
            &&& expect(t.skip(h), ",\"is_captured\":"@) is Some
            &&& t.skip(i) == flag_text(segment.is_captured)
        }),
    ensures
        read_fields(t) == Some(segment),
{
    lemma_flags_differ();
}

/// Where a text is made of eleven parts in a row, each part is found
/// where the ones before it end.
proof fn lemma_parts(
    t: Seq<char>,
    w0: Seq<char>,
    s1: Seq<char>,
    w1: Seq<char>,
    s2: Seq<char>,
    w2: Seq<char>,
    s3: Seq<char>,
    w3: Seq<char>,
    s4: Seq<char>,
    w4: Seq<char>,
    r9: Seq<char>,
)
    requires
        t == w0 + (s1 + (w1 + (s2 + (w2 + (s3 + (seq!['"'] + (w3 + (s4 + (seq!['"'] + (w4
            + r9)))))))))),
    ensures
        ({
            let quote = seq!['"'];
            let r8 = w4 + r9;
            let r7 = s4 + (quote + r8);
            let r6 = w3 + r7;
            let r5 = s3 + (quote + r6);
            let r4 = w2 + r5;
            let r3 = s2 + r4;
            let r2 = w1 + r3;
            let r1 = s1 + r2;
            let a = w0.len() as int;
            let b = a + s1.len();
            let c = b + w1.len();
            let d = c + s2.len();
            let e = d + w2.len();
            let f = e + s3.len() + 1;
            let g = f + w3.len();
            let h = g + s4.len() + 1;
            let i = h + w4.len();
            &&& expect(t, w0) == Some(w0.len())
            &&& t.skip(a) == r1
            &&& t.skip(b) == r2
            &&& expect(t.skip(b), w1) == Some(w1.len())
            &&& t.skip(c) == r3
            &&& t.skip(d) == r4
            &&& expect(t.skip(d), w2) == Some(w2.len())
            &&& t.skip(e) == r5
            &&& t.skip(f) == r6
            &&& expect(t.skip(f), w3) == Some(w3.len())
            &&& t.skip(g) == r7
            &&& t.skip(h) == r8
            &&& expect(t.skip(h), w4) == Some(w4.len())
            &&& t.skip(i) == r9
        }),
{
    let quote = seq!['"'];
    let r8 = w4 + r9;
    let r7 = s4 + (quote + r8);
    let r6 = w3 + r7;
    let r5 = s3 + (quote + r6);
    let r4 = w2 + r5;
    let r3 = s2 + r4;
    let r2 = w1 + r3;
    let r1 = s1 + r2;
    assert(t.skip(0) == t);
    lemma_step(t, 0, w0, r1);
    let a = w0.len() as int;
    lemma_step(t, a, s1, r2);
    let b = a + s1.len();
    lemma_step(t, b, w1, r3);
    let c = b + w1.len();
    lemma_step(t, c, s2, r4);
    let d = c + s2.len();
    lemma_step(t, d, w2, r5);
    let e = d + w2.len();
    lemma_step(t, e, s3, quote + r6);
    lemma_step(t, e + s3.len(), quote, r6);
    let f = e + s3.len() + 1;
    lemma_step(t, f, w3, r7);
    let g = f + w3.len();
    lemma_step(t, g, s4, quote + r8);
    lemma_step(t, g + s4.len(), quote, r8);
    let h = g + s4.len() + 1;
    lemma_step(t, h, w4, r9);
}

/// Reading the fields of a written line gives the segment that was
/// written.
proof fn lemma_read_fields_of_line(segment: SegmentView)
    requires
        segment.wf(),
    ensures
        read_fields(line_text(segment)) == Some(segment),
{
    let t = line_text(segment);
    let w0 = "{\"start_time\":\""@;
    let w1 = "\",\"end_time\":\""@;
    let w2 = "\",\"app_name\":\""@;
    let w3 = ",\"window_title\":\""@;
    let w4 = ",\"is_captured\":"@;
    let quote = seq!['"'];
    let s1 = segment.start_time.text();
    let s2 = segment.end_time.text();
    let s3 = escaped(segment.app_name);
    let s4 = escaped(segment.window_title);
    let r9 = flag_text(segment.is_captured);
    let r8 = w4 + r9;
    let r7 = s4 + (quote + r8);
    let r6 = w3 + r7;
    let r5 = s3 + (quote + r6);
    let r4 = w2 + r5;
    let r3 = s2 + r4;
    let r2 = w1 + r3;
    lemma_parts(t, w0, s1, w1, s2, w2, s3, w3, s4, w4, r9);
    lemma_timestamp_round_trip(segment.start_time, r2);
    lemma_timestamp_round_trip(segment.end_time, r4);
    lemma_quoted_round_trip(segment.app_name, r6);
    lemma_quoted_round_trip(segment.window_title, r8);
    lemma_assemble(t, segment, s1.len(), s2.len(), s3.len() + 1, s4.len() + 1);
}

/// A well-formed segment that is written as a log line and read back is
/// the same segment, field by field, its timestamps to the nanosecond.
pub proof fn lemma_log_line_round_trip(segment: SegmentView)
    requires
        segment.wf(),
    ensures
        parse_line(line_text(segment)) == Some(segment),
{
    lemma_read_fields_of_line(segment);
}

/// Whatever segment a line is read as, is well formed and has that line
/// as its written form: no two segments share a line.
pub proof fn lemma_parse_line_exact(t: Seq<char>, segment: SegmentView)
    ensures
        parse_line(t) == Some(segment) <==> segment.wf() && line_text(segment) == t,
{
    if segment.wf() && line_text(segment) == t {
        lemma_log_line_round_trip(segment);
    }
}

} // verus!
