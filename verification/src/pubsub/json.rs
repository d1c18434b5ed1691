//! JSON text for wire messages: the canonical compact printed form and
//! a reader for JSON objects that skips unknown members. The reader
//! understands insignificant whitespace, the short escapes, `\uXXXX`
//! escapes (surrogate pairs included), and nested values under unknown
//! keys.

use vstd::prelude::*;

use super::MessageView;
use crate::ids::{hex_char, hex_val, uuid_chars, uuid_of_chars};

verus! {

/// The character with scalar value `v`.
pub open spec fn char_of(v: int) -> char {
    (v as u32) as char
}

/// Whether `c` is insignificant JSON whitespace.
pub open spec fn is_ws_char(c: char) -> bool {
    c == ' ' || c == '\t' || c == '\n' || c == '\r'
}

/// The first position at or after `i` that holds no whitespace.
pub open spec fn skip_ws(s: Seq<char>, i: int) -> int
    decreases s.len() - i,
{
    if 0 <= i < s.len() && is_ws_char(s[i]) {
        skip_ws(s, i + 1)
    } else {
        i
    }
}

/// Whether four hexadecimal digits sit at `i`.
pub open spec fn hex_quad_valid(s: Seq<char>, i: int) -> bool {
    &&& hex_val(s[i]) < 16
    &&& hex_val(s[i + 1]) < 16
    &&& hex_val(s[i + 2]) < 16
    &&& hex_val(s[i + 3]) < 16
}

/// The value of the four hexadecimal digits at `i`.
pub open spec fn hex_quad(s: Seq<char>, i: int) -> int {
    ((hex_val(s[i]) * 16 + hex_val(s[i + 1])) * 16 + hex_val(s[i + 2])) * 16 + hex_val(s[i + 3])
}

/// How one character is written inside a JSON string literal.
pub open spec fn escape_char(c: char) -> Seq<char> {
    if c == '"' {
        seq!['\\', '"']
    } else if c == '\\' {
        seq!['\\', '\\']
    } else if c == '\n' {
        seq!['\\', 'n']
    } else if c == '\r' {
        seq!['\\', 'r']
    } else if c == '\t' {
        seq!['\\', 't']
    } else if (c as u32) < 32 {
        seq!['\\', 'u', '0', '0', hex_char(((c as u32) / 16) as int), hex_char(
            ((c as u32) % 16) as int,
        )]
    } else {
        seq![c]
    }
}

/// How a whole string is written inside a JSON string literal.
pub open spec fn escape_string(s: Seq<char>) -> Seq<char>
    decreases s.len(),
{
    if s.len() == 0 {
        Seq::empty()
    } else {
        escape_char(s[0]) + escape_string(s.drop_first())
    }
}

/// The JSON text of the reply field.
pub open spec fn reply_id_json(reply_id: Option<Seq<char>>) -> Seq<char> {
    match reply_id {
        None => "null"@,
        Some(reply) => seq!['"'] + escape_string(reply) + seq!['"'],
    }
}

/// The canonical JSON text of a wire message.
pub open spec fn message_json(m: MessageView) -> Seq<char> {
    "{\"id\":\""@ + uuid_chars(m.id) + "\",\"source\":\""@ + escape_string(m.source)
        + "\",\"msg\":\""@ + escape_string(m.msg) + "\",\"reply_id\":"@ + reply_id_json(m.reply_id)
        + ",\"topic\":\""@ + escape_string(m.topic) + "\"}"@
}

/// Scan a JSON string literal body, from just after the opening quote,
/// with `acc` the characters read so far: the unescaped content and the
/// position just after the closing quote.
pub open spec fn scan_string(s: Seq<char>, i: int, acc: Seq<char>) -> Option<(Seq<char>, int)>
    decreases s.len() - i,
{
    if i < 0 || i >= s.len() {
        None
    } else if s[i] == '"' {
        Some((acc, i + 1))
    } else if s[i] == '\\' {
        if i + 1 >= s.len() {
            None
        } else {
            let e = s[i + 1];
            if e == '"' {
                scan_string(s, i + 2, acc.push('"'))
            } else if e == '\\' {
                scan_string(s, i + 2, acc.push('\\'))
            } else if e == '/' {
                scan_string(s, i + 2, acc.push('/'))
            } else if e == 'n' {
                scan_string(s, i + 2, acc.push('\n'))
            } else if e == 'r' {
                scan_string(s, i + 2, acc.push('\r'))
            } else if e == 't' {
                scan_string(s, i + 2, acc.push('\t'))
            } else if e == 'b' {
                scan_string(s, i + 2, acc.push(char_of(8)))
            } else if e == 'f' {
                scan_string(s, i + 2, acc.push(char_of(12)))
            } else if e == 'u' {
                if i + 5 >= s.len() {
                    None
                } else if hex_quad_valid(s, i + 2) {
                    let v = hex_quad(s, i + 2);
                    if v < 0xD800 || v > 0xDFFF {
                        scan_string(s, i + 6, acc.push(char_of(v)))
                    } else if v <= 0xDBFF {
                        if i + 11 >= s.len() {
                            None
                        } else if s[i + 6] == '\\' && s[i + 7] == 'u' && hex_quad_valid(
                            s,
                            i + 8,
                        ) {
                            let w = hex_quad(s, i + 8);
                            if 0xDC00 <= w && w <= 0xDFFF {
                                scan_string(
                                    s,
                                    i + 12,
                                    acc.push(
                                        char_of(0x10000 + (v - 0xD800) * 0x400 + (w - 0xDC00)),
                                    ),
                                )
                            } else {
                                None
                            }
                        } else {
                            None
                        }
                    } else {
                        None
                    }
                } else {
                    None
                }
            } else {
                None
            }
        }
    } else {
        scan_string(s, i + 1, acc.push(s[i]))
    }
}

/// Whether `c` opens a JSON number.
pub open spec fn starts_number(c: char) -> bool {
    (c as u32) == 45 || (48 <= (c as u32) && (c as u32) <= 57)
}

/// Whether `c` may continue a JSON number.
pub open spec fn continues_number(c: char) -> bool {
    starts_number(c) || (c as u32) == 43 || (c as u32) == 46 || (c as u32) == 101 || (c as u32)
        == 69
}

/// Skip past the number starting at `i`.
pub open spec fn skip_number(s: Seq<char>, i: int) -> int
    decreases s.len() - i,
{
    if 0 <= i < s.len() && continues_number(s[i]) {
        skip_number(s, i + 1)
    } else {
        i
    }
}

/// Skip past the JSON value starting at `i`: the position just after it.
pub open spec fn skip_value(s: Seq<char>, i: int) -> Option<int>
    decreases s.len() - i, 0int,
{
    if i < 0 || i >= s.len() {
        None
    } else if s[i] == '"' {
        match scan_string(s, i + 1, Seq::empty()) {
            Some((_content, j)) => Some(j),
            None => None,
        }
    } else if s[i] == '{' {
        skip_members(s, i + 1, true)
    } else if s[i] == '[' {
        skip_items(s, i + 1, true)
    } else if s[i] == 't' {
        if i + 4 <= s.len() && s[i + 1] == 'r' && s[i + 2] == 'u' && s[i + 3] == 'e' {
            Some(i + 4)
        } else {
            None
        }
    } else if s[i] == 'f' {
        if i + 5 <= s.len() && s[i + 1] == 'a' && s[i + 2] == 'l' && s[i + 3] == 's' && s[i + 4]
            == 'e' {
            Some(i + 5)
        } else {
            None
        }
    } else if s[i] == 'n' {
        if i + 4 <= s.len() && s[i + 1] == 'u' && s[i + 2] == 'l' && s[i + 3] == 'l' {
            Some(i + 4)
        } else {
            None
        }
    } else if starts_number(s[i]) {
        Some(skip_number(s, i))
    } else {
        None
    }
}

/// Skip the members of an object, from just after `{` or a comma:
/// the position just after the closing `}`.
pub open spec fn skip_members(s: Seq<char>, i: int, first: bool) -> Option<int>
    decreases s.len() - i, 1int,
{
    let i0 = skip_ws(s, i);
    if i < 0 || i0 >= s.len() {
        None
    } else if first && s[i0] == '}' {
        Some(i0 + 1)
    } else if s[i0] == '"' {
        match scan_string(s, i0 + 1, Seq::empty()) {
            Some((_key, j)) => {
                let j2 = skip_ws(s, j);
                if i < j2 && j2 < s.len() && s[j2] == ':' {
                    let v = skip_ws(s, j2 + 1);
                    if j2 < v && v <= s.len() {
                        match skip_value(s, v) {
                            Some(k) => {
                                let k2 = skip_ws(s, k);
                                if v <= k && k2 < s.len() {
                                    if s[k2] == ',' {
                                        if i < k2 + 1 {
                                            skip_members(s, k2 + 1, false)
                                        } else {
                                            None
                                        }
                                    } else if s[k2] == '}' {
                                        Some(k2 + 1)
                                    } else {
                                        None
                                    }
                                } else {
                                    None
                                }
                            },
                            None => None,
                        }
                    } else {
                        None
                    }
                } else {
                    None
                }
            },
            None => None,
        }
    } else {
        None
    }
}

/// Skip the items of an array, from just after `[` or a comma: the
/// position just after the closing `]`.
pub open spec fn skip_items(s: Seq<char>, i: int, first: bool) -> Option<int>
    decreases s.len() - i, 1int,
{
    let i0 = skip_ws(s, i);
    if i < 0 || i0 >= s.len() {
        None
    } else if first && s[i0] == ']' {
        Some(i0 + 1)
    } else if i <= i0 {
        match skip_value(s, i0) {
            Some(k) => {
                let k2 = skip_ws(s, k);
                if i < k2 && k2 < s.len() {
                    if s[k2] == ',' {
                        skip_items(s, k2 + 1, false)
                    } else if s[k2] == ']' {
                        Some(k2 + 1)
                    } else {
                        None
                    }
                } else {
                    None
                }
            },
            None => None,
        }
    } else {
        None
    }
}

/// The fields collected while reading an object's members.
pub struct FieldAcc {
    pub id: Option<u128>,
    pub source: Option<Seq<char>>,
    pub msg: Option<Seq<char>>,
    pub reply_id: Option<Option<Seq<char>>>,
    pub topic: Option<Seq<char>>,
}

/// No field seen yet.
pub open spec fn empty_fields() -> FieldAcc {
    FieldAcc { id: None, source: None, msg: None, reply_id: None, topic: None }
}

/// The message the collected fields denote, if the required ones were
/// all present. A missing reply field means no reply.
pub open spec fn fields_message(acc: FieldAcc) -> Option<MessageView> {
    match (acc.id, acc.source, acc.msg, acc.topic) {
        (Some(id), Some(source), Some(msg), Some(topic)) => Some(
            MessageView {
                id,
                source,
                msg,
                reply_id: match acc.reply_id {
                    Some(reply) => reply,
                    None => None,
                },
                topic,
            },
        ),
        _ => None,
    }
}

/// Read one member's value for a known key and return the collected
/// fields and the position after the value; unknown keys have their
/// value skipped.
pub open spec fn read_member(s: Seq<char>, i: int, key: Seq<char>, acc: FieldAcc) -> Option<
    (FieldAcc, int),
> {
    if key == "id"@ {
        if 0 <= i < s.len() && s[i] == '"' {
            match scan_string(s, i + 1, Seq::empty()) {
                Some((idtext, j)) => match uuid_of_chars(idtext) {
                    Some(id) => Some((FieldAcc { id: Some(id), ..acc }, j)),
                    None => None,
                },
                None => None,
            }
        } else {
            None
        }
    } else if key == "source"@ {
        if 0 <= i < s.len() && s[i] == '"' {
            match scan_string(s, i + 1, Seq::empty()) {
                Some((content, j)) => Some((FieldAcc { source: Some(content), ..acc }, j)),
                None => None,
            }
        } else {
            None
        }
    } else if key == "msg"@ {
        if 0 <= i < s.len() && s[i] == '"' {
            match scan_string(s, i + 1, Seq::empty()) {
                Some((content, j)) => Some((FieldAcc { msg: Some(content), ..acc }, j)),
                None => None,
            }
        } else {
            None
        }
    } else if key == "topic"@ {
        if 0 <= i < s.len() && s[i] == '"' {
            match scan_string(s, i + 1, Seq::empty()) {
                Some((content, j)) => Some((FieldAcc { topic: Some(content), ..acc }, j)),
                None => None,
            }
        } else {
            None
        }
    } else if key == "reply_id"@ {
        if 0 <= i < s.len() && s[i] == '"' {
            match scan_string(s, i + 1, Seq::empty()) {
                Some((content, j)) => Some(
                    (FieldAcc { reply_id: Some(Some(content)), ..acc }, j),
                ),
                None => None,
            }
        } else if i + 4 <= s.len() && 0 <= i && s[i] == 'n' && s[i + 1] == 'u' && s[i + 2] == 'l'
            && s[i + 3] == 'l' {
            Some((FieldAcc { reply_id: Some(None), ..acc }, i + 4))
        } else {
            None
        }
    } else {
        match skip_value(s, i) {
            Some(j) => Some((acc, j)),
            None => None,
        }
    }
}

/// Read the members of the message object, from just after `{` or a
/// comma, and finish at a closing `}` followed only by whitespace.
pub open spec fn read_members(s: Seq<char>, i: int, acc: FieldAcc) -> Option<MessageView>
    decreases s.len() - i,
{
    let i0 = skip_ws(s, i);
    if i < 0 || i0 >= s.len() {
        None
    } else if s[i0] == '"' {
        match scan_string(s, i0 + 1, Seq::empty()) {
            Some((key, j)) => {
                let j2 = skip_ws(s, j);
                if i < j2 && j2 < s.len() && s[j2] == ':' {
                    let v = skip_ws(s, j2 + 1);
                    if j2 < v && v <= s.len() {
                        match read_member(s, v, key, acc) {
                            Some((read, k)) => {
                                let k2 = skip_ws(s, k);
                                if v <= k && k2 < s.len() {
                                    if s[k2] == ',' {
                                        if i < k2 + 1 {
                                            read_members(s, k2 + 1, read)
                                        } else {
                                            None
                                        }
                                    } else if s[k2] == '}' && skip_ws(s, k2 + 1) == s.len() {
                                        fields_message(read)
                                    } else {
                                        None
                                    }
                                } else {
                                    None
                                }
                            },
                            None => None,
                        }
                    } else {
                        None
                    }
                } else {
                    None
                }
            },
            None => None,
        }
    } else {
        None
    }
}

/// The message denoted by `s`, if `s` is a JSON message object.
pub open spec fn message_of_chars(s: Seq<char>) -> Option<MessageView> {
    let start = skip_ws(s, 0);
    if start < s.len() && s[start] == '{' {
        read_members(s, start + 1, empty_fields())
    } else {
        None
    }
}

/// Escaping distributes over appending one character.
pub proof fn lemma_escape_push(s: Seq<char>, c: char)
    ensures
        escape_string(s.push(c)) == escape_string(s) + escape_char(c),
    decreases s.len(),
{
    if s.len() == 0 {
        assert(s.push(c) =~= seq![c]);
        assert(seq![c].drop_first() =~= Seq::<char>::empty());
        assert(escape_string(seq![c]) == escape_char(c) + escape_string(Seq::<char>::empty()));
        assert(escape_char(c) + Seq::<char>::empty() =~= escape_char(c));
        assert(escape_string(s) + escape_char(c) =~= escape_char(c));
    } else {
        assert(s.push(c)[0] == s[0]);
        assert(s.push(c).drop_first() =~= s.drop_first().push(c));
        lemma_escape_push(s.drop_first(), c);
        assert(escape_string(s.push(c)) == escape_char(s[0]) + (escape_string(s.drop_first())
            + escape_char(c)));
        assert(escape_char(s[0]) + (escape_string(s.drop_first()) + escape_char(c)) =~= (
        escape_char(s[0]) + escape_string(s.drop_first())) + escape_char(c));
    }
}

/// Append the escaped form of `s` to `out`.
pub fn append_escaped(out: &mut String, s: &str)
    ensures
        final(out)@ == old(out)@ + escape_string(s@),
{
    let chars = crate::text::chars_of(s);
    let mut i: usize = 0;
    while i < chars.len()
        invariant
            i <= chars@.len(),
            chars@ == s@,
            out@ == old(out)@ + escape_string(s@.subrange(0, i as int)),
        decreases chars@.len() - i,
    {
        let c = chars[i];
        if c == '"' {
            out.append("\\\"");
            proof {
                reveal_strlit("\\\"");
                assert("\\\""@ =~= escape_char(c));
            }
        } else if c == '\\' {
            out.append("\\\\");
            proof {
                reveal_strlit("\\\\");
                assert("\\\\"@ =~= escape_char(c));
            }
        } else if c == '\n' {
            out.append("\\n");
            proof {
                reveal_strlit("\\n");
                assert("\\n"@ =~= escape_char(c));
            }
        } else if c == '\r' {
            out.append("\\r");
            proof {
                reveal_strlit("\\r");
                assert("\\r"@ =~= escape_char(c));
            }
        } else if c == '\t' {
            out.append("\\t");
            proof {
                reveal_strlit("\\t");
                assert("\\t"@ =~= escape_char(c));
            }
        } else {
            let u = c as u32;
            if u < 32 {
                out.append("\\u00");
                crate::text::push_char(out, crate::ids::hex_char_of((u / 16) as u8));
                crate::text::push_char(out, crate::ids::hex_char_of((u % 16) as u8));
                proof {
                    reveal_strlit("\\u00");
                    assert("\\u00"@.push(hex_char(((c as u32) / 16) as int)).push(
                        hex_char(((c as u32) % 16) as int),
                    ) =~= escape_char(c));
                }
            } else {
                crate::text::push_char(out, c);
                proof {
                    assert(Seq::<char>::empty().push(c) =~= escape_char(c));
                }
            }
        }
        i = i + 1;
        proof {
            assert(s@.subrange(0, i as int) =~= s@.subrange(0, i - 1).push(s@[i - 1]));
            lemma_escape_push(s@.subrange(0, i - 1), s@[i - 1]);
            assert(out@ =~= old(out)@ + escape_string(s@.subrange(0, i as int)));
        }
    }
    proof {
        assert(s@.subrange(0, s@.len() as int) =~= s@);
    }
}

/// Whether `c` is insignificant JSON whitespace.
fn is_ws_char_exec(c: char) -> (ws: bool)
    ensures
        ws == is_ws_char(c),
{
    c == ' ' || c == '\t' || c == '\n' || c == '\r'
}

/// Skip whitespace, mirroring `skip_ws`.
fn skip_ws_exec(chars: &Vec<char>, start: usize) -> (end: usize)
    requires
        start <= chars@.len(),
    ensures
        end as int == skip_ws(chars@, start as int),
        start <= end <= chars@.len(),
{
    let mut i = start;
    while i < chars.len() && is_ws_char_exec(chars[i])
        invariant
            start <= i <= chars@.len(),
            skip_ws(chars@, start as int) == skip_ws(chars@, i as int),
        decreases chars@.len() - i,
    {
        i = i + 1;
    }
    i
}

/// Scan a JSON string literal body, mirroring `scan_string`.
pub fn scan_string_exec(chars: &Vec<char>, start: usize) -> (found: Option<(String, usize)>)
    ensures
        match found {
            Some(pair) => {
                &&& scan_string(chars@, start as int, Seq::empty()) == Some(
                    (pair.0@, pair.1 as int),
                )
                &&& start < pair.1 <= chars@.len()
            },
            None => scan_string(chars@, start as int, Seq::empty()) is None,
        },
{
    let mut acc = String::new();
    let mut i = start;
    loop
        invariant
            start <= i,
            scan_string(chars@, start as int, Seq::empty()) == scan_string(
                chars@,
                i as int,
                acc@,
            ),
        decreases chars@.len() - i,
    {
        if i >= chars.len() {
            return None;
        }
        let c = chars[i];
        if c == '"' {
            return Some((acc, i + 1));
        } else if c == '\\' {
            if chars.len() - i < 2 {
                return None;
            }
            let e = chars[i + 1];
            if e == '"' {
                crate::text::push_char(&mut acc, '"');
                i = i + 2;
            } else if e == '\\' {
                crate::text::push_char(&mut acc, '\\');
                i = i + 2;
            } else if e == '/' {
                crate::text::push_char(&mut acc, '/');
                i = i + 2;
            } else if e == 'n' {
                crate::text::push_char(&mut acc, '\n');
                i = i + 2;
            } else if e == 'r' {
                crate::text::push_char(&mut acc, '\r');
                i = i + 2;
            } else if e == 't' {
                crate::text::push_char(&mut acc, '\t');
                i = i + 2;
            } else if e == 'b' {
                proof {
                    broadcast use vstd::utf8::char_u32_cast;

                    assert('\u{8}' == char_of(8));
                }
                crate::text::push_char(&mut acc, '\u{8}');
                i = i + 2;
            } else if e == 'f' {
                proof {
                    broadcast use vstd::utf8::char_u32_cast;

                    assert('\u{c}' == char_of(12));
                }
                crate::text::push_char(&mut acc, '\u{c}');
                i = i + 2;
            } else if e == 'u' {
                if chars.len() - i < 6 {
                    return None;
                }
                let d1 = crate::ids::hex_val_of(chars[i + 2]) as u32;
                let d2 = crate::ids::hex_val_of(chars[i + 3]) as u32;
                let d3 = crate::ids::hex_val_of(chars[i + 4]) as u32;
                let d4 = crate::ids::hex_val_of(chars[i + 5]) as u32;
                if !(d1 < 16 && d2 < 16 && d3 < 16 && d4 < 16) {
                    return None;
                }
                let v = ((d1 * 16 + d2) * 16 + d3) * 16 + d4;
                if v < 0xD800 || v > 0xDFFF {
                    let c = match crate::text::char_from_u32(v) {
                        Some(scalar) => scalar,
                        None => {
                            proof {
                                assert(false);
                            }
                            return None;
                        },
                    };
                    crate::text::push_char(&mut acc, c);
                    i = i + 6;
                } else if v <= 0xDBFF {
                    if chars.len() - i < 12 {
                        return None;
                    }
                    if !(chars[i + 6] == '\\' && chars[i + 7] == 'u') {
                        return None;
                    }
                    let w1 = crate::ids::hex_val_of(chars[i + 8]) as u32;
                    let w2 = crate::ids::hex_val_of(chars[i + 9]) as u32;
                    let w3 = crate::ids::hex_val_of(chars[i + 10]) as u32;
                    let w4 = crate::ids::hex_val_of(chars[i + 11]) as u32;
                    if !(w1 < 16 && w2 < 16 && w3 < 16 && w4 < 16) {
                        return None;
                    }
                    let w = ((w1 * 16 + w2) * 16 + w3) * 16 + w4;
                    if !(0xDC00 <= w && w <= 0xDFFF) {
                        return None;
                    }
                    let combined = 0x10000 + (v - 0xD800) * 0x400 + (w - 0xDC00);
                    let c = match crate::text::char_from_u32(combined) {
                        Some(scalar) => scalar,
                        None => {
                            proof {
                                assert(false);
                            }
                            return None;
                        },
                    };
                    crate::text::push_char(&mut acc, c);
                    i = i + 12;
                } else {
                    return None;
                }
            } else {
                return None;
            }
        } else {
            crate::text::push_char(&mut acc, c);
            i = i + 1;
        }
    }
}

/// Whether `c` may continue a JSON number.
fn is_number_char(c: char) -> (continues: bool)
    ensures
        continues == continues_number(c),
{
    let u = c as u32;
    u == 45 || (48 <= u && u <= 57) || u == 43 || u == 46 || u == 101 || u == 69
}

/// Skip past a number, mirroring `skip_number`.
fn skip_number_exec(chars: &Vec<char>, start: usize) -> (end: usize)
    requires
        start <= chars@.len(),
    ensures
        end as int == skip_number(chars@, start as int),
        start <= end <= chars@.len(),
{
    let mut i = start;
    while i < chars.len() && is_number_char(chars[i])
        invariant
            start <= i <= chars@.len(),
            skip_number(chars@, start as int) == skip_number(chars@, i as int),
        decreases chars@.len() - i,
    {
        i = i + 1;
    }
    i
}

/// Skip past a JSON value, mirroring `skip_value`.
fn skip_value_exec(chars: &Vec<char>, start: usize) -> (end: Option<usize>)
    ensures
        match end {
            Some(j) => skip_value(chars@, start as int) == Some(j as int) && j <= chars@.len(),
            None => skip_value(chars@, start as int) is None,
        },
    decreases chars@.len() - start, 0int,
{
    if start >= chars.len() {
        return None;
    }
    let c = chars[start];
    if c == '"' {
        match scan_string_exec(chars, start + 1) {
            Some((_content, j)) => Some(j),
            None => None,
        }
    } else if c == '{' {
        skip_members_exec(chars, start + 1, true)
    } else if c == '[' {
        skip_items_exec(chars, start + 1, true)
    } else if c == 't' {
        if chars.len() - start >= 4 && chars[start + 1] == 'r' && chars[start + 2] == 'u'
            && chars[start + 3] == 'e' {
            Some(start + 4)
        } else {
            None
        }
    } else if c == 'f' {
        if chars.len() - start >= 5 && chars[start + 1] == 'a' && chars[start + 2] == 'l'
            && chars[start + 3] == 's' && chars[start + 4] == 'e' {
            Some(start + 5)
        } else {
            None
        }
    } else if c == 'n' {
        if chars.len() - start >= 4 && chars[start + 1] == 'u' && chars[start + 2] == 'l'
            && chars[start + 3] == 'l' {
            Some(start + 4)
        } else {
            None
        }
    } else {
        let u = c as u32;
        if u == 45 || (48 <= u && u <= 57) {
            proof {
                assert(starts_number(chars@[start as int]));
            }
            Some(skip_number_exec(chars, start))
        } else {
            proof {
                assert(!starts_number(chars@[start as int]));
            }
            None
        }
    }
}

/// Skip the members of an object, mirroring `skip_members`.
fn skip_members_exec(chars: &Vec<char>, start: usize, first: bool) -> (end: Option<usize>)
    requires
        start <= chars@.len(),
    ensures
        match end {
            Some(j) => skip_members(chars@, start as int, first) == Some(j as int) && j
                <= chars@.len(),
            None => skip_members(chars@, start as int, first) is None,
        },
    decreases chars@.len() - start, 1int,
{
    let i0 = skip_ws_exec(chars, start);
    if i0 >= chars.len() {
        return None;
    }
    if first && chars[i0] == '}' {
        return Some(i0 + 1);
    }
    if chars[i0] != '"' {
        return None;
    }
    match scan_string_exec(chars, i0 + 1) {
        Some((_key, j)) => {
            let j2 = skip_ws_exec(chars, j);
            if !(start < j2 && j2 < chars.len()) {
                return None;
            }
            if chars[j2] != ':' {
                return None;
            }
            let v = skip_ws_exec(chars, j2 + 1);
            if !(j2 < v) {
                return None;
            }
            match skip_value_exec(chars, v) {
                Some(k) => {
                    let k2 = skip_ws_exec(chars, k);
                    if !(v <= k && k2 < chars.len()) {
                        return None;
                    }
                    if chars[k2] == ',' {
                        if start < k2 + 1 {
                            skip_members_exec(chars, k2 + 1, false)
                        } else {
                            None
                        }
                    } else if chars[k2] == '}' {
                        Some(k2 + 1)
                    } else {
                        None
                    }
                },
                None => None,
            }
        },
        None => None,
    }
}

/// Skip the items of an array, mirroring `skip_items`.
fn skip_items_exec(chars: &Vec<char>, start: usize, first: bool) -> (end: Option<usize>)
    requires
        start <= chars@.len(),
    ensures
        match end {
            Some(j) => skip_items(chars@, start as int, first) == Some(j as int) && j
                <= chars@.len(),
            None => skip_items(chars@, start as int, first) is None,
        },
    decreases chars@.len() - start, 1int,
{
    let i0 = skip_ws_exec(chars, start);
    if i0 >= chars.len() {
        return None;
    }
    if first && chars[i0] == ']' {
        return Some(i0 + 1);
    }
    match skip_value_exec(chars, i0) {
        Some(k) => {
            let k2 = skip_ws_exec(chars, k);
            if !(start < k2 && k2 < chars.len()) {
                return None;
            }
            if chars[k2] == ',' {
                skip_items_exec(chars, k2 + 1, false)
            } else if chars[k2] == ']' {
                Some(k2 + 1)
            } else {
                None
            }
        },
        None => None,
    }
}

/// The collected exec fields as ghost fields.
pub open spec fn fields_of(
    id: Option<u128>,
    source: Option<String>,
    msg: Option<String>,
    reply_id: Option<Option<String>>,
    topic: Option<String>,
) -> FieldAcc {
    FieldAcc {
        id,
        source: match source {
            Some(text) => Some(text@),
            None => None,
        },
        msg: match msg {
            Some(text) => Some(text@),
            None => None,
        },
        reply_id: match reply_id {
            Some(Some(text)) => Some(Some(text@)),
            Some(None) => Some(None),
            None => None,
        },
        topic: match topic {
            Some(text) => Some(text@),
            None => None,
        },
    }
}

/// Read a message object, mirroring `message_of_chars`.
#[verifier::rlimit(100)]
pub fn read_message(chars: &Vec<char>) -> (message: Option<super::Message>)
    ensures
        match message {
            Some(m) => message_of_chars(chars@) == Some(m@),
            None => message_of_chars(chars@) is None,
        },
{
    let start = skip_ws_exec(chars, 0);
    if start >= chars.len() || chars[start] != '{' {
        return None;
    }
    let id_label: String = "id".to_owned();
    let source_label: String = "source".to_owned();
    let msg_label: String = "msg".to_owned();
    let reply_label: String = "reply_id".to_owned();
    let topic_label: String = "topic".to_owned();
    let mut id: Option<u128> = None;
    let mut source: Option<String> = None;
    let mut msg: Option<String> = None;
    let mut reply_id: Option<Option<String>> = None;
    let mut topic: Option<String> = None;
    let mut i: usize = start + 1;
    loop
        invariant
            i <= chars@.len(),
            id_label@ == "id"@,
            source_label@ == "source"@,
            msg_label@ == "msg"@,
            reply_label@ == "reply_id"@,
            topic_label@ == "topic"@,
            message_of_chars(chars@) == read_members(
                chars@,
                i as int,
                fields_of(id, source, msg, reply_id, topic),
            ),
        decreases chars@.len() - i,
    {
        let ghost acc = fields_of(id, source, msg, reply_id, topic);
        let i0 = skip_ws_exec(chars, i);
        if i0 >= chars.len() {
            return None;
        }
        if chars[i0] != '"' {
            return None;
        }
        let scanned = scan_string_exec(chars, i0 + 1);
        let (key, j) = match scanned {
            Some(pair) => pair,
            None => {
                return None;
            },
        };
        let j2 = skip_ws_exec(chars, j);
        if !(i < j2 && j2 < chars.len()) {
            return None;
        }
        if chars[j2] != ':' {
            return None;
        }
        let v = skip_ws_exec(chars, j2 + 1);
        if !(j2 < v) {
            return None;
        }
        let k: usize;
        if key == id_label {
            if v >= chars.len() || chars[v] != '"' {
                return None;
            }
            let (idtext, after) = match scan_string_exec(chars, v + 1) {
                Some(pair) => pair,
                None => {
                    return None;
                },
            };
            match crate::ids::uuid_from_str(idtext.as_str()) {
                Some(parsed) => {
                    id = Some(parsed);
                    k = after;
                },
                None => {
                    return None;
                },
            }
        } else if key == source_label {
            if v >= chars.len() || chars[v] != '"' {
                return None;
            }
            match scan_string_exec(chars, v + 1) {
                Some((content, after)) => {
                    source = Some(content);
                    k = after;
                },
                None => {
                    return None;
                },
            }
        } else if key == msg_label {
            if v >= chars.len() || chars[v] != '"' {
                return None;
            }
            match scan_string_exec(chars, v + 1) {
                Some((content, after)) => {
                    msg = Some(content);
                    k = after;
                },
                None => {
                    return None;
                },
            }
        } else if key == topic_label {
            if v >= chars.len() || chars[v] != '"' {
                return None;
            }
            match scan_string_exec(chars, v + 1) {
                Some((content, after)) => {
                    topic = Some(content);
                    k = after;
                },
                None => {
                    return None;
                },
            }
        } else if key == reply_label {
            if v < chars.len() && chars[v] == '"' {
                match scan_string_exec(chars, v + 1) {
                    Some((content, after)) => {
                        reply_id = Some(Some(content));
                        k = after;
                    },
                    None => {
                        return None;
                    },
                }
            } else if chars.len() - v >= 4 && v < chars.len() && chars[v] == 'n' && chars[v + 1]
                == 'u' && chars[v + 2] == 'l' && chars[v + 3] == 'l' {
                reply_id = Some(None);
                k = v + 4;
            } else {
                return None;
            }
        } else {
            match skip_value_exec(chars, v) {
                Some(after) => {
                    k = after;
                },
                None => {
                    return None;
                },
            }
        }
        proof {
            assert(read_member(chars@, v as int, key@, acc) == Some(
                (fields_of(id, source, msg, reply_id, topic), k as int),
            ));
        }
        let k2 = skip_ws_exec(chars, k);
        if !(v <= k && k2 < chars.len()) {
            return None;
        }
        if chars[k2] == ',' {
            if !(i < k2 + 1) {
                return None;
            }
            i = k2 + 1;
        } else if chars[k2] == '}' {
            let endpos = skip_ws_exec(chars, k2 + 1);
            if endpos == chars.len() {
                let idv = match id {
                    Some(value) => value,
                    None => {
                        return None;
                    },
                };
                let sourcev = match source {
                    Some(value) => value,
                    None => {
                        return None;
                    },
                };
                let msgv = match msg {
                    Some(value) => value,
                    None => {
                        return None;
                    },
                };
                let topicv = match topic {
                    Some(value) => value,
                    None => {
                        return None;
                    },
                };
                let replyv = match reply_id {
                    Some(value) => value,
                    None => None,
                };
                return Some(
                    super::Message::from_parts(idv, sourcev, msgv, replyv, topicv),
                );
            } else {
                return None;
            }
        } else {
            return None;
        }
    }
}

/// A character that JSON writes as itself.
pub open spec fn is_plain_char(c: char) -> bool {
    (c as u32) >= 32 && c != '"' && c != '\\'
}

/// A string of plain characters escapes to itself.
pub proof fn lemma_escape_plain(s: Seq<char>)
    requires
        forall|k: int| 0 <= k < s.len() ==> is_plain_char(#[trigger] s[k]),
    ensures
        escape_string(s) == s,
    decreases s.len(),
{
    if s.len() == 0 {
        assert(escape_string(s) =~= s);
    } else {
        assert(is_plain_char(s[0]));
        assert(escape_char(s[0]) == seq![s[0]]);
        assert forall|k: int| 0 <= k < s.drop_first().len() implies is_plain_char(
            #[trigger] s.drop_first()[k],
        ) by {
            assert(s.drop_first()[k] == s[k + 1]);
        }
        lemma_escape_plain(s.drop_first());
        assert(seq![s[0]] + s.drop_first() =~= s);
    }
}

/// The printed form of a UUID consists of plain characters.
pub proof fn lemma_uuid_chars_plain(id: u128)
    ensures
        forall|k: int| 0 <= k < uuid_chars(id).len() ==> is_plain_char(#[trigger] uuid_chars(id)[k]),
        escape_string(uuid_chars(id)) == uuid_chars(id),
        uuid_chars(id).len() == 36,
{
    let h = crate::ids::hex_digits(id as int, 32);
    crate::ids::lemma_hex_digits_len(id as int, 32);
    crate::ids::lemma_hex_digits_are_hex(id as int, 32);
    let u = uuid_chars(id);
    assert forall|k: int| 0 <= k < u.len() implies is_plain_char(#[trigger] u[k]) by {
        if u[k] == '-' {
        } else {
            assert(exists|j: int| 0 <= j < 32 && u[k] == h[j]);
            let j = choose|j: int| 0 <= j < 32 && u[k] == h[j];
            assert(hex_val(h[j]) < 16);
        }
    }
    lemma_escape_plain(u);
}

/// A character survives the trip through its scalar value.
proof fn lemma_char_of_roundtrip(c: char)
    ensures
        char_of((c as u32) as int) == c,
{
    broadcast use vstd::utf8::char_u32_cast;

    assert(((c as u32) as int) as u32 == c as u32);
}

/// Scanning the escaped form of `content`, closed by a quote, yields
/// `content` back and stops just past the quote.
pub proof fn lemma_scan_escaped(
    s: Seq<char>,
    prefix: Seq<char>,
    acc: Seq<char>,
    content: Seq<char>,
    tail: Seq<char>,
)
    requires
        s == prefix + escape_string(content) + seq!['"'] + tail,
    ensures
        scan_string(s, prefix.len() as int, acc) == Some(
            (acc + content, prefix.len() as int + escape_string(content).len() + 1),
        ),
    decreases content.len(),
{
    broadcast use vstd::utf8::char_u32_cast;

    let i = prefix.len() as int;
    let esc = escape_string(content);
    if content.len() == 0 {
        assert(esc =~= Seq::<char>::empty());
        assert(s[i] == '"');
        assert(acc + content =~= acc);
    } else {
        let c = content[0];
        let rest = content.drop_first();
        let ec = escape_char(c);
        assert(esc == ec + escape_string(rest));
        assert forall|k: int| 0 <= k < ec.len() implies s[i + k] == ec[k] by {
            assert(s[i + k] == esc[k]);
        }
        let prefix2 = prefix + ec;
        assert(s =~= prefix2 + escape_string(rest) + seq!['"'] + tail);
        lemma_scan_escaped(s, prefix2, acc.push(c), rest, tail);
        assert(acc.push(c) + rest =~= acc + content);
        let u = c as u32;
        if c == '"' {
            assert(s[i] == '\\' && s[i + 1] == '"');
        } else if c == '\\' {
            assert(s[i] == '\\' && s[i + 1] == '\\');
        } else if c == '\n' {
            assert(s[i] == '\\' && s[i + 1] == 'n');
        } else if c == '\r' {
            assert(s[i] == '\\' && s[i + 1] == 'r');
        } else if c == '\t' {
            assert(s[i] == '\\' && s[i + 1] == 't');
        } else if u < 32 {
            assert(s[i] == '\\' && s[i + 1] == 'u' && s[i + 2] == '0' && s[i + 3] == '0');
            assert(s[i + 4] == hex_char((u / 16) as int));
            assert(s[i + 5] == hex_char((u % 16) as int));
            assert(hex_val(s[i + 2]) == 0 && hex_val(s[i + 3]) == 0);
            assert(hex_val(s[i + 4]) == u / 16 && hex_val(s[i + 5]) == u % 16);
            assert(hex_quad_valid(s, i + 2));
            assert(hex_quad(s, i + 2) == (u / 16) * 16 + (u % 16));
            assert((u / 16) * 16 + (u % 16) == u as int);
            lemma_char_of_roundtrip(c);
            assert(char_of(u as int) == c);
        } else {
            assert(s[i] == c);
        }
    }
}

/// Scanning a quoted escaped segment after `pre`.
pub proof fn lemma_scan_quoted(s: Seq<char>, pre: Seq<char>, content: Seq<char>, rest: Seq<char>)
    requires
        s == pre + seq!['"'] + escape_string(content) + seq!['"'] + rest,
    ensures
        s[pre.len() as int] == '"',
        scan_string(s, pre.len() as int + 1, Seq::empty()) == Some(
            (content, pre.len() as int + escape_string(content).len() + 2),
        ),
{
    let prefix = pre + seq!['"'];
    assert(s =~= prefix + escape_string(content) + seq!['"'] + rest);
    lemma_scan_escaped(s, prefix, Seq::empty(), content, rest);
    assert(Seq::<char>::empty() + content =~= content);
    assert(s[pre.len() as int] == '"');
}

/// One member of a JSON object: the quoted key, a colon, the value.
pub open spec fn member_json(key: Seq<char>, value: Seq<char>) -> Seq<char> {
    seq!['"'] + key + seq!['"', ':'] + value
}

/// A quoted escaped string value.
pub open spec fn quoted(content: Seq<char>) -> Seq<char> {
    seq!['"'] + escape_string(content) + seq!['"']
}

/// The five keys of the message object escape to themselves.
proof fn lemma_keys_plain()
    ensures
        escape_string("id"@) == "id"@,
        escape_string("source"@) == "source"@,
        escape_string("msg"@) == "msg"@,
        escape_string("reply_id"@) == "reply_id"@,
        escape_string("topic"@) == "topic"@,
{
    reveal_strlit("id");
    reveal_strlit("source");
    reveal_strlit("msg");
    reveal_strlit("reply_id");
    reveal_strlit("topic");
    assert forall|k: int| 0 <= k < "id"@.len() implies is_plain_char(#[trigger] "id"@[k]) by {}
    lemma_escape_plain("id"@);
    assert forall|k: int| 0 <= k < "source"@.len() implies is_plain_char(
        #[trigger] "source"@[k],
    ) by {}
    lemma_escape_plain("source"@);
    assert forall|k: int| 0 <= k < "msg"@.len() implies is_plain_char(#[trigger] "msg"@[k]) by {}
    lemma_escape_plain("msg"@);
    assert forall|k: int| 0 <= k < "reply_id"@.len() implies is_plain_char(
        #[trigger] "reply_id"@[k],
    ) by {}
    lemma_escape_plain("reply_id"@);
    assert forall|k: int| 0 <= k < "topic"@.len() implies is_plain_char(
        #[trigger] "topic"@[k],
    ) by {}
    lemma_escape_plain("topic"@);
}

/// The members of the canonical message text, in order.
spec fn rt_m1(m: MessageView) -> Seq<char> {
    member_json("id"@, quoted(uuid_chars(m.id)))
}

spec fn rt_m2(m: MessageView) -> Seq<char> {
    member_json("source"@, quoted(m.source))
}

spec fn rt_m3(m: MessageView) -> Seq<char> {
    member_json("msg"@, quoted(m.msg))
}

spec fn rt_m4(m: MessageView) -> Seq<char> {
    member_json("reply_id"@, reply_id_json(m.reply_id))
}

spec fn rt_m5(m: MessageView) -> Seq<char> {
    member_json("topic"@, quoted(m.topic))
}

/// The cursor just after each member's separator.
spec fn rt_c1(m: MessageView) -> int {
    2 + rt_m1(m).len() as int
}

spec fn rt_c2(m: MessageView) -> int {
    rt_c1(m) + rt_m2(m).len() as int + 1
}

spec fn rt_c3(m: MessageView) -> int {
    rt_c2(m) + rt_m3(m).len() as int + 1
}

spec fn rt_c4(m: MessageView) -> int {
    rt_c3(m) + rt_m4(m).len() as int + 1
}

/// The fields collected after each member.
spec fn rt_acc1(m: MessageView) -> FieldAcc {
    FieldAcc { id: Some(m.id), ..empty_fields() }
}

spec fn rt_acc2(m: MessageView) -> FieldAcc {
    FieldAcc { source: Some(m.source), ..rt_acc1(m) }
}

spec fn rt_acc3(m: MessageView) -> FieldAcc {
    FieldAcc { msg: Some(m.msg), ..rt_acc2(m) }
}

spec fn rt_acc4(m: MessageView) -> FieldAcc {
    FieldAcc { reply_id: Some(m.reply_id), ..rt_acc3(m) }
}

spec fn rt_acc5(m: MessageView) -> FieldAcc {
    FieldAcc { topic: Some(m.topic), ..rt_acc4(m) }
}

/// The canonical text is the brace-wrapped, comma-separated members.
#[verifier::rlimit(100)]
#[verifier::spinoff_prover]
proof fn lemma_body_parts(m: MessageView)
    ensures
        message_json(m) == seq!['{'] + rt_m1(m) + seq![','] + rt_m2(m) + seq![','] + rt_m3(m)
            + seq![','] + rt_m4(m) + seq![','] + rt_m5(m) + seq!['}'],
{
    reveal_strlit("{\"id\":\"");
    reveal_strlit("\",\"source\":\"");
    reveal_strlit("\",\"msg\":\"");
    reveal_strlit("\",\"reply_id\":");
    reveal_strlit(",\"topic\":\"");
    reveal_strlit("\"}");
    reveal_strlit("id");
    reveal_strlit("source");
    reveal_strlit("msg");
    reveal_strlit("reply_id");
    reveal_strlit("topic");
    lemma_keys_plain();
    lemma_uuid_chars_plain(m.id);
    assert(message_json(m) =~= seq!['{'] + rt_m1(m) + seq![','] + rt_m2(m) + seq![','] + rt_m3(m)
        + seq![','] + rt_m4(m) + seq![','] + rt_m5(m) + seq!['}']);
}

/// Reading a member of the shape `"key":"content"` at `pre.len()`.
#[verifier::rlimit(100)]
#[verifier::spinoff_prover]
proof fn lemma_member_shape(
    s: Seq<char>,
    pre: Seq<char>,
    key: Seq<char>,
    content: Seq<char>,
    rest: Seq<char>,
)
    requires
        s == pre + member_json(key, quoted(content)) + rest,
        escape_string(key) == key,
    ensures
        s.len() == pre.len() + member_json(key, quoted(content)).len() + rest.len(),
        member_json(key, quoted(content)).len() == key.len() + escape_string(content).len() + 5,
        s[pre.len() as int] == '"',
        scan_string(s, pre.len() as int + 1, Seq::empty()) == Some(
            (key, pre.len() as int + key.len() + 2),
        ),
        s[pre.len() as int + key.len() + 2] == ':',
        s[pre.len() as int + key.len() + 3] == '"',
        scan_string(s, pre.len() as int + key.len() + 4, Seq::empty()) == Some(
            (content, pre.len() as int + member_json(key, quoted(content)).len()),
        ),
        rest.len() > 0 ==> s[pre.len() as int + member_json(key, quoted(content)).len()]
            == rest[0],
{
    let member = member_json(key, quoted(content));
    assert(s =~= pre + seq!['"'] + escape_string(key) + seq!['"'] + (seq![':'] + quoted(content)
        + rest));
    lemma_scan_quoted(s, pre, key, seq![':'] + quoted(content) + rest);
    let pre2 = pre + seq!['"'] + key + seq!['"', ':'];
    assert(s =~= pre2 + seq!['"'] + escape_string(content) + seq!['"'] + rest);
    lemma_scan_quoted(s, pre2, content, rest);
    assert(s[pre.len() as int + key.len() + 2] == ':');
    if rest.len() > 0 {
        assert(s[pre.len() as int + member.len()] == rest[0]);
    }
}

/// One reading step: at the cursor sits `"key":"content"` followed by a
/// comma, the key updates the fields as `updated` says, and the reader
/// moves past the comma.
#[verifier::rlimit(100)]
#[verifier::spinoff_prover]
proof fn lemma_member_step(
    s: Seq<char>,
    pre: Seq<char>,
    key: Seq<char>,
    content: Seq<char>,
    rest: Seq<char>,
    acc: FieldAcc,
    updated: FieldAcc,
)
    requires
        s == pre + member_json(key, quoted(content)) + rest,
        escape_string(key) == key,
        rest.len() > 0,
        read_member(
            s,
            pre.len() as int + key.len() as int + 3,
            key,
            acc,
        ) == Some((updated, pre.len() as int + member_json(key, quoted(content)).len() as int)),
    ensures
        rest[0] == ',' ==> read_members(s, pre.len() as int, acc) == read_members(
            s,
            pre.len() as int + member_json(key, quoted(content)).len() + 1,
            updated,
        ),
        rest[0] == '}' && rest.len() == 1 ==> read_members(s, pre.len() as int, acc)
            == fields_message(updated),
{
    lemma_member_shape(s, pre, key, content, rest);
    let i = pre.len() as int;
    let j = i + key.len() + 2;
    let kend = i + member_json(key, quoted(content)).len();
    assert(j < s.len());
    assert(kend < s.len());
    assert(j + 1 <= kend);
}

/// The first member reads back: id.
#[verifier::rlimit(100)]
#[verifier::spinoff_prover]
proof fn lemma_roundtrip_step1(m: MessageView)
    ensures
        read_members(message_json(m), 1, empty_fields()) == read_members(
            message_json(m),
            rt_c1(m),
            rt_acc1(m),
        ),
{
    lemma_body_parts(m);
    lemma_keys_plain();
    lemma_uuid_chars_plain(m.id);
    crate::ids::lemma_uuid_roundtrip(m.id);
    let s = message_json(m);
    let u = uuid_chars(m.id);

    // member 1: "id"
    let pre1 = seq!['{'];
    let rest1 = seq![','] + rt_m2(m) + seq![','] + rt_m3(m) + seq![','] + rt_m4(m) + seq![',']
        + rt_m5(m) + seq!['}'];
    assert(s =~= pre1 + rt_m1(m) + rest1);
    lemma_member_shape(s, pre1, "id"@, u, rest1);
    assert(read_member(s, 1 + "id"@.len() as int + 3, "id"@, empty_fields()) == Some(
        (rt_acc1(m), 1 + rt_m1(m).len() as int),
    ));
    lemma_member_step(s, pre1, "id"@, u, rest1, empty_fields(), rt_acc1(m));
    assert(read_members(s, 1, empty_fields()) == read_members(s, rt_c1(m), rt_acc1(m)));

}

/// The second member reads back: source.
#[verifier::rlimit(100)]
#[verifier::spinoff_prover]
proof fn lemma_roundtrip_step2(m: MessageView)
    ensures
        read_members(message_json(m), rt_c1(m), rt_acc1(m)) == read_members(
            message_json(m),
            rt_c2(m),
            rt_acc2(m),
        ),
{
    lemma_body_parts(m);
    lemma_keys_plain();
    let s = message_json(m);

    // member 2: "source"
    let pre2 = seq!['{'] + rt_m1(m) + seq![','];
    let rest2 = seq![','] + rt_m3(m) + seq![','] + rt_m4(m) + seq![','] + rt_m5(m) + seq!['}'];
    assert(s =~= pre2 + rt_m2(m) + rest2);
    lemma_member_shape(s, pre2, "source"@, m.source, rest2);
    assert("source"@ != "id"@) by {
        reveal_strlit("source");
        reveal_strlit("id");
    }
    assert(read_member(s, pre2.len() as int + "source"@.len() as int + 3, "source"@, rt_acc1(m)) == Some(
        (rt_acc2(m), pre2.len() as int + rt_m2(m).len() as int),
    ));
    lemma_member_step(s, pre2, "source"@, m.source, rest2, rt_acc1(m), rt_acc2(m));
    assert(read_members(s, rt_c1(m), rt_acc1(m)) == read_members(s, rt_c2(m), rt_acc2(m)));

}

/// The third member reads back: msg.
#[verifier::rlimit(100)]
#[verifier::spinoff_prover]
proof fn lemma_roundtrip_step3(m: MessageView)
    ensures
        read_members(message_json(m), rt_c2(m), rt_acc2(m)) == read_members(
            message_json(m),
            rt_c3(m),
            rt_acc3(m),
        ),
{
    lemma_body_parts(m);
    lemma_keys_plain();
    let s = message_json(m);

    // member 3: "msg"
    let pre2 = seq!['{'] + rt_m1(m) + seq![','];
    let pre3 = pre2 + rt_m2(m) + seq![','];
    let rest3 = seq![','] + rt_m4(m) + seq![','] + rt_m5(m) + seq!['}'];
    assert(s =~= pre3 + rt_m3(m) + rest3);
    lemma_member_shape(s, pre3, "msg"@, m.msg, rest3);
    assert("msg"@ != "id"@ && "msg"@ != "source"@) by {
        reveal_strlit("msg");
        reveal_strlit("id");
        reveal_strlit("source");
    }
    assert(read_member(s, pre3.len() as int + "msg"@.len() as int + 3, "msg"@, rt_acc2(m)) == Some(
        (rt_acc3(m), pre3.len() as int + rt_m3(m).len() as int),
    ));
    lemma_member_step(s, pre3, "msg"@, m.msg, rest3, rt_acc2(m), rt_acc3(m));
    assert(read_members(s, rt_c2(m), rt_acc2(m)) == read_members(s, rt_c3(m), rt_acc3(m)));

}

/// The first three members read back: id, source, msg.
proof fn lemma_roundtrip_front(m: MessageView)
    ensures
        read_members(message_json(m), 1, empty_fields()) == read_members(
            message_json(m),
            rt_c3(m),
            rt_acc3(m),
        ),
{
    lemma_roundtrip_step1(m);
    lemma_roundtrip_step2(m);
    lemma_roundtrip_step3(m);
}

/// Law: reading back the canonical JSON text of a message yields the
/// message, field for field.
#[verifier::rlimit(100)]
#[verifier::spinoff_prover]
pub proof fn lemma_message_roundtrip(m: MessageView)
    ensures
        message_of_chars(message_json(m)) == Some(m),
{
    lemma_body_parts(m);
    lemma_keys_plain();
    lemma_uuid_chars_plain(m.id);
    lemma_roundtrip_front(m);
    let s = message_json(m);
    let pre2 = seq!['{'] + rt_m1(m) + seq![','];
    let pre3 = pre2 + rt_m2(m) + seq![','];

    // member 4: "reply_id"
    let pre4 = pre3 + rt_m3(m) + seq![','];
    let rest4 = seq![','] + rt_m5(m) + seq!['}'];
    assert(s =~= pre4 + rt_m4(m) + rest4);
    assert("reply_id"@ != "id"@ && "reply_id"@ != "source"@ && "reply_id"@ != "msg"@) by {
        reveal_strlit("reply_id");
        reveal_strlit("id");
        reveal_strlit("source");
        reveal_strlit("msg");
    }
    lemma_reply_step(m, s, pre4, rest4);
    assert(read_members(s, rt_c3(m), rt_acc3(m)) == read_members(s, rt_c4(m), rt_acc4(m)));

    // member 5: "topic"
    let pre5 = pre4 + rt_m4(m) + seq![','];
    let rest5 = seq!['}'];
    assert(s =~= pre5 + rt_m5(m) + rest5);
    lemma_member_shape(s, pre5, "topic"@, m.topic, rest5);
    assert("topic"@ != "id"@ && "topic"@ != "source"@ && "topic"@ != "msg"@ && "topic"@
        != "reply_id"@) by {
        reveal_strlit("topic");
        reveal_strlit("id");
        reveal_strlit("source");
        reveal_strlit("msg");
        reveal_strlit("reply_id");
    }
    assert(read_member(s, pre5.len() as int + "topic"@.len() as int + 3, "topic"@, rt_acc4(m)) == Some(
        (rt_acc5(m), pre5.len() as int + rt_m5(m).len() as int),
    ));
    lemma_member_step(s, pre5, "topic"@, m.topic, rest5, rt_acc4(m), rt_acc5(m));
    assert(read_members(s, rt_c4(m), rt_acc4(m)) == fields_message(rt_acc5(m)));
    assert(fields_message(rt_acc5(m)) == Some(m));
    assert(s[0] == '{');
    assert(s.len() > 0);
}

/// The reply member updates the fields and moves the reader past the
/// following comma, whether the reply is a string or null.
#[verifier::rlimit(100)]
#[verifier::spinoff_prover]
proof fn lemma_reply_step(m: MessageView, s: Seq<char>, pre: Seq<char>, rest: Seq<char>)
    requires
        s == pre + rt_m4(m) + rest,
        rest.len() > 0,
        rest[0] == ',',
        pre.len() as int == rt_c3(m) && pre.len() as int + rt_m4(m).len() as int + 1 == rt_c4(m),
    ensures
        read_members(s, pre.len() as int, rt_acc3(m)) == read_members(s, rt_c4(m), rt_acc4(m)),
{
    lemma_keys_plain();
    let key = "reply_id"@;
    assert(key != "id"@ && key != "source"@ && key != "msg"@ && key != "topic"@) by {
        reveal_strlit("reply_id");
        reveal_strlit("id");
        reveal_strlit("source");
        reveal_strlit("msg");
        reveal_strlit("topic");
    }
    let i = pre.len() as int;
    match m.reply_id {
        Some(content) => {
            assert(rt_m4(m) == member_json(key, quoted(content)));
            lemma_member_shape(s, pre, key, content, rest);
            assert(read_member(s, i + key.len() as int + 3, key, rt_acc3(m)) == Some(
                (rt_acc4(m), i + rt_m4(m).len() as int),
            ));
            lemma_member_step(s, pre, key, content, rest, rt_acc3(m), rt_acc4(m));
        },
        None => {
            reveal_strlit("null");
            assert(reply_id_json(m.reply_id) == "null"@);
            assert(s =~= pre + seq!['"'] + escape_string(key) + seq!['"'] + (seq![':'] + "null"@
                + rest));
            lemma_scan_quoted(s, pre, key, seq![':'] + "null"@ + rest);
            let j = i + key.len() + 2;
            assert(s[j] == ':');
            let pre2 = pre + seq!['"'] + key + seq!['"', ':'];
            assert(s =~= pre2 + "null"@ + rest);
            let v = j + 1;
            assert(v == pre2.len());
            assert(s[v] == 'n' && s[v + 1] == 'u' && s[v + 2] == 'l' && s[v + 3] == 'l');
            assert(s[v] != '"');
            let kend = v + 4;
            assert(kend == i + rt_m4(m).len() as int);
            assert(read_member(s, v, key, rt_acc3(m)) == Some((rt_acc4(m), kend)));
            assert(kend < s.len());
            assert(s[kend] == rest[0]);
            assert(j + 1 <= kend);
        },
    }
}

} // verus!
