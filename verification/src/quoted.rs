//! Quoted strings of the activity log: how a name is written between
//! double quotes, and how it is read back.

use vstd::prelude::*;
use crate::text::{code_of, push_char};

verus! {

/// The character that writes the hexadecimal digit `d`, in lower case.
pub open spec fn hex_char(d: int) -> char {
    if d < 10 {
        (d + 48) as char
    } else {
        (d + 87) as char
    }
}

/// The value of a lower-case hexadecimal digit.
pub open spec fn hex_value(c: char) -> Option<int> {
    if 48 <= c as int <= 57 {
        Some(c as int - 48)
    } else if 97 <= c as int <= 102 {
        Some(c as int - 87)
    } else {
        None
    }
}

/// How one character stands inside a quoted string: the quote, the
/// backslash and the control characters are escaped, all others stand as
/// they are.
pub open spec fn escape_char(c: char) -> Seq<char> {
    if c == '"' {
        seq!['\\', '"']
    } else if c == '\\' {
        seq!['\\', '\\']
    } else if c as int == 8 {
        seq!['\\', 'b']
    } else if c as int == 12 {
        seq!['\\', 'f']
    } else if c == '\n' {
        seq!['\\', 'n']
    } else if c == '\r' {
        seq!['\\', 'r']
    } else if c == '\t' {
        seq!['\\', 't']
    } else if (c as int) < 32 {
        seq!['\\', 'u', '0', '0', hex_char(c as int / 16), hex_char(c as int % 16)]
    } else {
        seq![c]
    }
}

/// The characters of `s` as they stand between the quotes.
pub open spec fn escaped(s: Seq<char>) -> Seq<char>
    decreases s.len(),
{
    if s.len() == 0 {
        Seq::empty()
    } else {
        escaped(s.drop_last()) + escape_char(s.last())
    }
}

/// The character written at the start of `t`, plain or escaped, with the
/// number of characters that write it. A closing quote is no character.
pub open spec fn take_unit(t: Seq<char>) -> Option<(char, nat)> {
    if t.len() == 0 {
        None
    } else if t[0] == '"' {
        None
    } else if t[0] == '\\' {
        if t.len() < 2 {
            None
        } else if t[1] == '"' {
            Some(('"', 2nat))
        } else if t[1] == '\\' {
            Some(('\\', 2nat))
        } else if t[1] == 'b' {
            Some((8 as char, 2nat))
        } else if t[1] == 'f' {
            Some((12 as char, 2nat))
        } else if t[1] == 'n' {
            Some(('\n', 2nat))
        } else if t[1] == 'r' {
            Some(('\r', 2nat))
        } else if t[1] == 't' {
            Some(('\t', 2nat))
        } else if t[1] == 'u' && t.len() >= 6 && t[2] == '0' && t[3] == '0' {
            match (hex_value(t[4]), hex_value(t[5])) {
                (Some(high), Some(low)) => if high < 2 {
                    Some(((high * 16 + low) as char, 6nat))
                } else {
                    None
                },
                _ => None,
            }
        } else {
            None
        }
    } else if (t[0] as int) < 32 {
        None
    } else {
        Some((t[0], 1nat))
    }
}

/// The string whose quoted form starts `t`, the opening quote already
/// read: its characters, and how many characters of `t` write it, the
/// closing quote included.
#[verifier::opaque]
pub open spec fn take_content(t: Seq<char>) -> Option<(Seq<char>, nat)>
    decreases t.len(),
{
    if t.len() == 0 {
        None
    } else if t[0] == '"' {
        Some((Seq::empty(), 1nat))
    } else {
        match take_unit(t) {
            Some((c, n)) => if 1 <= n <= t.len() {
                match take_content(t.skip(n as int)) {
                    Some((s, m)) => Some((seq![c] + s, n + m)),
                    None => None,
                }
            } else {
                None
            },
            None => None,
        }
    }
}

fn hex_of(d: u8) -> (c: char)
    requires
        d < 16,
    ensures
        c == hex_char(d as int),
{
    if d < 10 {
        (d + 48) as char
    } else {
        (d + 87) as char
    }
}

/// Appends one character to `s` as it stands inside a quoted string.
pub fn push_escaped_char(s: &mut String, c: char)
    ensures
        final(s)@ == old(s)@ + escape_char(c),
{
    let code = code_of(c);
    if c == '"' {
        push_char(s, '\\');
        push_char(s, '"');
    } else if c == '\\' {
        push_char(s, '\\');
        push_char(s, '\\');
    } else if code == 8 {
        push_char(s, '\\');
        push_char(s, 'b');
    } else if code == 12 {
        push_char(s, '\\');
        push_char(s, 'f');
    } else if c == '\n' {
        push_char(s, '\\');
        push_char(s, 'n');
    } else if c == '\r' {
        push_char(s, '\\');
        push_char(s, 'r');
    } else if c == '\t' {
        push_char(s, '\\');
        push_char(s, 't');
    } else if code < 32 {
        push_char(s, '\\');
        push_char(s, 'u');
        push_char(s, '0');
        push_char(s, '0');
        push_char(s, hex_of((code / 16) as u8));
        push_char(s, hex_of((code % 16) as u8));
    } else {
        push_char(s, c);
    }
    assert(s@ == old(s)@ + escape_char(c));
}

/// Appends `text` to `s` as it stands between the quotes.
pub fn push_escaped(s: &mut String, text: &str)
    ensures
        final(s)@ == old(s)@ + escaped(text@),
{
    let chars = crate::text::chars_of(text);
    let mut i: usize = 0;
    while i < chars.len()
        invariant
            i <= chars.len(),
            chars@ == text@,
            s@ == old(s)@ + escaped(chars@.take(i as int)),
        decreases chars.len() - i,
    {
        push_escaped_char(s, chars[i]);
        proof {
            let next = chars@.take(i + 1);
            assert(next.drop_last() == chars@.take(i as int));
            assert(next.last() == chars@[i as int]);
            assert(s@ == old(s)@ + escaped(next));
        }
        i += 1;
    }
    assert(chars@.take(chars.len() as int) == chars@);
}

fn hex_digit_value(c: char) -> (r: Option<u8>)
    ensures
        match hex_value(c) {
            Some(v) => r == Some(v as u8) && 0 <= v < 16,
            None => r is None,
        },
{
    let code = code_of(c);
    if 48 <= code && code <= 57 {
        Some((code - 48) as u8)
    } else if 97 <= code && code <= 102 {
        Some((code - 87) as u8)
    } else {
        None
    }
}

/// Reads the character written in `chars` at `pos`, plain or escaped, and
/// gives it with the position after it.
fn read_unit(chars: &Vec<char>, pos: usize) -> (r: Option<(char, usize)>)
    requires
        pos <= chars.len(),
    ensures
        match take_unit(chars@.skip(pos as int)) {
            Some((c, n)) => r == Some((c, (pos + n) as usize)) && 1 <= n && pos + n
                <= chars.len(),
            None => r is None,
        },
{
    let n = chars.len();
    let ghost t = chars@.skip(pos as int);
    if pos >= n {
        return None;
    }
    let c = chars[pos];
    assert(t[0] == c);
    if c == '"' {
        None
    } else if c == '\\' {
        if n - pos < 2 {
            return None;
        }
        let e = chars[pos + 1];
        assert(t[1] == e);
        if e == '"' {
            Some(('"', pos + 2))
        } else if e == '\\' {
            Some(('\\', pos + 2))
        } else if e == 'b' {
            Some((8u8 as char, pos + 2))
        } else if e == 'f' {
            Some((12u8 as char, pos + 2))
        } else if e == 'n' {
            Some(('\n', pos + 2))
        } else if e == 'r' {
            Some(('\r', pos + 2))
        } else if e == 't' {
            Some(('\t', pos + 2))
        } else if e == 'u' && n - pos >= 6 && chars[pos + 2] == '0' && chars[pos + 3] == '0' {
            assert(t[2] == chars@[pos + 2] && t[3] == chars@[pos + 3]);
            assert(t[4] == chars@[pos + 4] && t[5] == chars@[pos + 5]);
            match (hex_digit_value(chars[pos + 4]), hex_digit_value(chars[pos + 5])) {
                (Some(high), Some(low)) => {
                    if high < 2 {
                        Some(((high * 16 + low) as char, pos + 6))
                    } else {
                        None
                    }
                },
                _ => None,
            }
        } else {
            None
        }
    } else if code_of(c) < 32 {
        None
    } else {
        Some((c, pos + 1))
    }
}

/// Reads a quoted string of `chars` from `pos` on, the opening quote
/// already read, and gives the string with the position after the closing
/// quote.
pub fn read_content(chars: &Vec<char>, pos: usize) -> (r: Option<(String, usize)>)
    requires
        pos <= chars.len(),
    ensures
        match take_content(chars@.skip(pos as int)) {
            Some((s, n)) => r matches Some((text, end)) && text@ == s && end == pos + n && end
                <= chars.len(),
            None => r is None,
        },
{
    let n = chars.len();
    let mut text = String::new();
    let mut at: usize = pos;
    loop
        invariant
            pos <= at <= n,
            n == chars.len(),
            match take_content(chars@.skip(at as int)) {
                Some((s, m)) => take_content(chars@.skip(pos as int)) == Some(
                    (text@ + s, (at - pos + m) as nat),
                ),
                None => take_content(chars@.skip(pos as int)) is None,
            },
        decreases n - at,
    {
        let ghost t = chars@.skip(at as int);
        proof {
            reveal_with_fuel(take_content, 2);
        }
        if at >= n {
            return None;
        }
        assert(t[0] == chars@[at as int]);
        if chars[at] == '"' {
            assert(text@ + Seq::<char>::empty() == text@);
            return Some((text, at + 1));
        }
        match read_unit(chars, at) {
            Some((c, next)) => {
                proof {
                    assert(t.skip(next - at) == chars@.skip(next as int));
                    match take_content(chars@.skip(next as int)) {
                        Some((s, m)) => {
                            assert((text@.push(c)) + s == text@ + (seq![c] + s));
                        },
                        None => {},
                    }
                }
                push_char(&mut text, c);
                at = next;
            },
            None => {
                return None;
            },
        }
    }
}

/// The escaped form of a string is that of its first character followed
/// by that of the rest.
pub proof fn lemma_escaped_front(s: Seq<char>)
    requires
        s.len() > 0,
    ensures
        escaped(s) == escape_char(s[0]) + escaped(s.skip(1)),
    decreases s.len(),
{
    if s.len() == 1 {
        assert(s.drop_last() == Seq::<char>::empty());
        assert(s.skip(1) == Seq::<char>::empty());
        assert(escaped(s.skip(1)) == Seq::<char>::empty());
        assert(escaped(s.drop_last()) == Seq::<char>::empty());
        assert(escaped(s) == Seq::<char>::empty() + escape_char(s[0]));
        assert(escaped(s) == escape_char(s[0]) + Seq::<char>::empty());
    } else {
        let head = s.drop_last();
        lemma_escaped_front(head);
        assert(head.skip(1) == s.skip(1).drop_last());
        assert(head[0] == s[0]);
        assert(s.skip(1).last() == s.last());
        assert(escaped(s.skip(1)) == escaped(head.skip(1)) + escape_char(s.last()));
        assert(escaped(s) == (escape_char(s[0]) + escaped(head.skip(1))) + escape_char(
            s.last(),
        ));
        assert(escaped(s) == escape_char(s[0]) + (escaped(head.skip(1)) + escape_char(
            s.last(),
        )));
    }
}

/// Reading one written character gives that character back.
pub proof fn lemma_unit_round_trip(c: char, rest: Seq<char>)
    ensures
        take_unit(escape_char(c) + rest) == Some((c, escape_char(c).len())),
        escape_char(c).len() >= 1,
        (escape_char(c) + rest)[0] != '"',
{
    let t = escape_char(c) + rest;
    if (c as int) < 32 && c as int != 8 && c as int != 12 && c != '\n' && c != '\r' && c != '\t' {
        let high = c as int / 16;
        let low = c as int % 16;
        assert(t[0] == '\\' && t[1] == 'u' && t[2] == '0' && t[3] == '0');
        assert(t[4] == hex_char(high));
        assert(t[5] == hex_char(low));
        assert(hex_value(hex_char(high)) == Some(high));
        assert(hex_value(hex_char(low)) == Some(low));
        assert((high * 16 + low) as char == c);
    } else {
        assert(t[0] == escape_char(c)[0]);
        if escape_char(c).len() == 2 {
            assert(t[1] == escape_char(c)[1]);
        }
    }
}

/// Reading a written string gives the same string back, whatever follows
/// the closing quote.
pub proof fn lemma_content_round_trip(s: Seq<char>, rest: Seq<char>)
    ensures
        take_content(escaped(s) + seq!['"'] + rest) == Some((s, escaped(s).len() + 1)),
    decreases s.len(),
{
    let t = escaped(s) + seq!['"'] + rest;
    reveal_with_fuel(take_content, 2);
    if s.len() == 0 {
        assert(t[0] == '"');
    } else {
        let c = s[0];
        let tail = escaped(s.skip(1)) + seq!['"'] + rest;
        lemma_escaped_front(s);
        assert(t == escape_char(c) + tail);
        lemma_unit_round_trip(c, tail);
        let n = escape_char(c).len();
        assert(t.skip(n as int) == tail);
        lemma_content_round_trip(s.skip(1), rest);
        assert(seq![c] + s.skip(1) == s);
    }
}

} // verus!
