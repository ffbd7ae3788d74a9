//! The wire encoding of protocol messages: one flat JSON object per
//! message, fields in declaration order, absent fields omitted, strings
//! escaped as JSON requires. [`encode_message`] pins the emitted text
//! character for character; the newline that terminates a framed line is
//! the caller's (see `session::split_lines` for the framing itself).

use vstd::prelude::*;
use crate::messages::{Message, MessageV, opt_str_view, screens_view};
use crate::screens::{ScreenData, ScreenV};
use crate::text::{chars_to_string, spec_int_chars, str_chars, i64_chars, spec_digit_char};

verus! {

/// The character of one hexadecimal digit.
pub open spec fn spec_hex_char(d: nat) -> char {
    if d < 10 {
        spec_digit_char(d)
    } else if d == 10 {
        'a'
    } else if d == 11 {
        'b'
    } else if d == 12 {
        'c'
    } else if d == 13 {
        'd'
    } else if d == 14 {
        'e'
    } else {
        'f'
    }
}

/// How one character is written inside a JSON string: quote and backslash
/// escaped, the named control escapes used where JSON has them, any other
/// control character written as a `\u00XX` escape, everything else
/// literal.
pub open spec fn spec_esc_char(c: char) -> Seq<char> {
    if c == '"' {
        seq!['\\', '"']
    } else if c == '\\' {
        seq!['\\', '\\']
    } else if c == '\u{8}' {
        seq!['\\', 'b']
    } else if c == '\u{9}' {
        seq!['\\', 't']
    } else if c == '\u{a}' {
        seq!['\\', 'n']
    } else if c == '\u{c}' {
        seq!['\\', 'f']
    } else if c == '\u{d}' {
        seq!['\\', 'r']
    } else if (c as u32) < 0x20 {
        seq!['\\', 'u', '0', '0', spec_hex_char(((c as u32) / 16) as nat), spec_hex_char(
            ((c as u32) % 16) as nat,
        )]
    } else {
        seq![c]
    }
}

/// A string's characters, escaped for JSON.
pub open spec fn spec_esc(s: Seq<char>) -> Seq<char>
    decreases s.len(),
{
    if s.len() == 0 {
        Seq::empty()
    } else {
        spec_esc(s.drop_last()) + spec_esc_char(s.last())
    }
}

/// A JSON string literal: the escaped characters between quotes.
pub open spec fn spec_json_string(s: Seq<char>) -> Seq<char> {
    seq!['"'] + spec_esc(s) + seq!['"']
}

/// `true` or `false`.
pub open spec fn spec_json_bool(b: bool) -> Seq<char> {
    if b {
        "true"@
    } else {
        "false"@
    }
}

/// One display inside a `hello`'s `screens` array.
pub open spec fn spec_enc_screen(s: ScreenV) -> Seq<char> {
    "{\"name\":"@ + spec_json_string(s.name) + ",\"x\":"@ + spec_int_chars(s.x) + ",\"y\":"@
        + spec_int_chars(s.y) + ",\"width\":"@ + spec_int_chars(s.width) + ",\"height\":"@
        + spec_int_chars(s.height) + ",\"is_primary\":"@ + spec_json_bool(s.is_primary) + "}"@
}

/// The `screens` array: the displays in order, comma-separated.
pub open spec fn spec_enc_screen_list(ss: Seq<ScreenV>) -> Seq<char>
    decreases ss.len(),
{
    if ss.len() == 0 {
        Seq::empty()
    } else if ss.len() == 1 {
        spec_enc_screen(ss[0])
    } else {
        spec_enc_screen_list(ss.drop_last()) + seq![','] + spec_enc_screen(ss.last())
    }
}

/// An optional string field, with its leading comma and key.
pub open spec fn spec_opt_str(key: Seq<char>, o: Option<Seq<char>>) -> Seq<char> {
    match o {
        Some(s) => key + spec_json_string(s),
        None => Seq::empty(),
    }
}

/// An optional integer field, with its leading comma and key.
pub open spec fn spec_opt_i32(key: Seq<char>, o: Option<i32>) -> Seq<char> {
    match o {
        Some(v) => key + spec_int_chars(v as int),
        None => Seq::empty(),
    }
}

/// An optional unsigned field, with its leading comma and key.
pub open spec fn spec_opt_u32(key: Seq<char>, o: Option<u32>) -> Seq<char> {
    match o {
        Some(v) => key + spec_int_chars(v as int),
        None => Seq::empty(),
    }
}

/// The optional `screens` field, with its leading comma and key.
pub open spec fn spec_opt_screens(key: Seq<char>, o: Option<Seq<ScreenV>>) -> Seq<char> {
    match o {
        Some(ss) => key + seq!['['] + spec_enc_screen_list(ss) + seq![']'],
        None => Seq::empty(),
    }
}

/// The full wire text of a message: the required `type` field, then each
/// present optional field in declaration order.
pub open spec fn spec_encode(m: MessageV) -> Seq<char> {
    "{\"type\":"@ + spec_json_string(m.msg_type) + spec_opt_i32(",\"x\":"@, m.x) + spec_opt_i32(
        ",\"y\":"@,
        m.y,
    ) + spec_opt_str(",\"button\":"@, m.button) + spec_opt_str(",\"action\":"@, m.action)
        + spec_opt_u32(",\"key_code\":"@, m.key_code) + spec_opt_str(",\"text\":"@, m.text)
        + spec_opt_str(",\"name\":"@, m.name) + spec_opt_str(",\"version\":"@, m.version)
        + spec_opt_screens(",\"screens\":"@, m.screens) + spec_opt_str(
        ",\"computer_type\":"@,
        m.computer_type,
    ) + spec_opt_str(",\"layout\":"@, m.layout) + "}"@
}

fn hex_char(d: u32) -> (c: char)
    requires
        d < 16,
    ensures
        c == spec_hex_char(d as nat),
{
    if d == 0 {
        '0'
    } else if d == 1 {
        '1'
    } else if d == 2 {
        '2'
    } else if d == 3 {
        '3'
    } else if d == 4 {
        '4'
    } else if d == 5 {
        '5'
    } else if d == 6 {
        '6'
    } else if d == 7 {
        '7'
    } else if d == 8 {
        '8'
    } else if d == 9 {
        '9'
    } else if d == 10 {
        'a'
    } else if d == 11 {
        'b'
    } else if d == 12 {
        'c'
    } else if d == 13 {
        'd'
    } else if d == 14 {
        'e'
    } else {
        'f'
    }
}

pub(crate) fn push_str(out: &mut Vec<char>, s: &str)
    ensures
        final(out)@ == old(out)@ + s@,
{
    let mut cs = str_chars(s);
    out.append(&mut cs);
}

fn push_json_string(out: &mut Vec<char>, s: &str)
    ensures
        final(out)@ == old(out)@ + spec_json_string(s@),
{
    out.push('"');
    let cs = str_chars(s);
    let mut i: usize = 0;
    while i < cs.len()
        invariant
            0 <= i <= cs@.len(),
            cs@ == s@,
            out@ == old(out)@ + seq!['"'] + spec_esc(s@.subrange(0, i as int)),
        decreases cs@.len() - i,
    {
        let ghost pre = out@;
        let c = cs[i];
        if c == '"' {
            out.push('\\');
            out.push('"');
        } else if c == '\\' {
            out.push('\\');
            out.push('\\');
        } else if c == '\u{8}' {
            out.push('\\');
            out.push('b');
        } else if c == '\u{9}' {
            out.push('\\');
            out.push('t');
        } else if c == '\u{a}' {
            out.push('\\');
            out.push('n');
        } else if c == '\u{c}' {
            out.push('\\');
            out.push('f');
        } else if c == '\u{d}' {
            out.push('\\');
            out.push('r');
        } else if (c as u32) < 0x20 {
            out.push('\\');
            out.push('u');
            out.push('0');
            out.push('0');
            out.push(hex_char((c as u32) / 16));
            out.push(hex_char((c as u32) % 16));
        } else {
            out.push(c);
        }
        proof {
            assert(out@ =~= pre + spec_esc_char(s@[i as int]));
            let sub1 = s@.subrange(0, i + 1);
            assert(sub1.drop_last() =~= s@.subrange(0, i as int));
            assert(sub1.last() == s@[i as int]);
            assert(out@ =~= old(out)@ + seq!['"'] + spec_esc(sub1));
        }
        i = i + 1;
    }
    out.push('"');
    proof {
        assert(s@.subrange(0, s@.len() as int) =~= s@);
        assert(out@ =~= old(out)@ + spec_json_string(s@));
    }
}

pub(crate) fn push_i32(out: &mut Vec<char>, v: i32)
    ensures
        final(out)@ == old(out)@ + spec_int_chars(v as int),
{
    let mut cs = i64_chars(v as i64);
    out.append(&mut cs);
}

pub(crate) fn push_u32(out: &mut Vec<char>, v: u32)
    ensures
        final(out)@ == old(out)@ + spec_int_chars(v as int),
{
    let mut cs = i64_chars(v as i64);
    out.append(&mut cs);
}

fn push_screen(out: &mut Vec<char>, s: &ScreenData)
    ensures
        final(out)@ == old(out)@ + spec_enc_screen(s@),
{
    push_str(out, "{\"name\":");
    push_json_string(out, s.name.as_str());
    push_str(out, ",\"x\":");
    push_i32(out, s.x);
    push_str(out, ",\"y\":");
    push_i32(out, s.y);
    push_str(out, ",\"width\":");
    push_i32(out, s.width);
    push_str(out, ",\"height\":");
    push_i32(out, s.height);
    push_str(out, ",\"is_primary\":");
    if s.is_primary {
        push_str(out, "true");
    } else {
        push_str(out, "false");
    }
    push_str(out, "}");
    proof {
        assert(final(out)@ =~= old(out)@ + spec_enc_screen(s@));
    }
}

fn push_opt_str_field(out: &mut Vec<char>, key: &str, o: &Option<String>)
    ensures
        final(out)@ == old(out)@ + spec_opt_str(key@, opt_str_view(*o)),
{
    match o {
        Some(v) => {
            push_str(out, key);
            push_json_string(out, v.as_str());
        },
        None => {},
    }
    proof {
        assert(final(out)@ =~= old(out)@ + spec_opt_str(key@, opt_str_view(*o)));
    }
}

fn push_opt_i32_field(out: &mut Vec<char>, key: &str, o: Option<i32>)
    ensures
        final(out)@ == old(out)@ + spec_opt_i32(key@, o),
{
    match o {
        Some(v) => {
            push_str(out, key);
            push_i32(out, v);
        },
        None => {},
    }
    proof {
        assert(final(out)@ =~= old(out)@ + spec_opt_i32(key@, o));
    }
}

fn push_opt_u32_field(out: &mut Vec<char>, key: &str, o: Option<u32>)
    ensures
        final(out)@ == old(out)@ + spec_opt_u32(key@, o),
{
    match o {
        Some(v) => {
            push_str(out, key);
            push_u32(out, v);
        },
        None => {},
    }
    proof {
        assert(final(out)@ =~= old(out)@ + spec_opt_u32(key@, o));
    }
}

fn push_screens_field(out: &mut Vec<char>, key: &str, o: &Option<Vec<ScreenData>>)
    ensures
        final(out)@ == old(out)@ + spec_opt_screens(
            key@,
            crate::messages::opt_screens_view(*o),
        ),
{
    match o {
        Some(ss) => {
            push_str(out, key);
            push_str(out, "[");
            proof {
                reveal_strlit("[");
                assert("["@ =~= seq!['[']);
                assert(screens_view(ss@.subrange(0, 0)) =~= Seq::<ScreenV>::empty());
                assert(out@ =~= old(out)@ + key@ + seq!['[']
                    + spec_enc_screen_list(screens_view(ss@.subrange(0, 0))));
            }
            let mut i: usize = 0;
            while i < ss.len()
                invariant
                    0 <= i <= ss@.len(),
                    out@ == old(out)@ + key@ + seq!['[']
                        + spec_enc_screen_list(screens_view(ss@.subrange(0, i as int))),
                decreases ss@.len() - i,
            {
                if i > 0 {
                    push_str(out, ",");
                }
                push_screen(out, &ss[i]);
                proof {
                    reveal_strlit(",");
                    assert(","@ =~= seq![',']);
                    let sv1 = screens_view(ss@.subrange(0, i + 1));
                    assert(sv1.drop_last() =~= screens_view(ss@.subrange(0, i as int)));
                    assert(sv1.last() == ss@[i as int]@);
                    if i == 0 {
                        assert(spec_enc_screen_list(sv1) == spec_enc_screen(sv1[0]));
                        assert(out@ =~= old(out)@ + key@ + seq!['[']
                            + spec_enc_screen_list(sv1));
                    } else {
                        assert(spec_enc_screen_list(sv1) == spec_enc_screen_list(
                            sv1.drop_last(),
                        ) + seq![','] + spec_enc_screen(sv1.last()));
                        assert(out@ =~= old(out)@ + key@ + seq!['[']
                            + spec_enc_screen_list(sv1));
                    }
                }
                i = i + 1;
            }
            push_str(out, "]");
            proof {
                reveal_strlit("]");
                assert("]"@ =~= seq![']']);
                assert(ss@.subrange(0, ss@.len() as int) =~= ss@);
                assert(final(out)@ =~= old(out)@ + spec_opt_screens(
                    key@,
                    Some(screens_view(ss@)),
                ));
            }
        },
        None => {},
    }
}

/// Renders one message as its wire line, without the trailing newline.
#[verifier::rlimit(60)]
pub fn encode_message(m: &Message) -> (s: String)
    ensures
        s@ == spec_encode(m@),
{
    let mut out: Vec<char> = Vec::new();
    push_str(&mut out, "{\"type\":");
    push_json_string(&mut out, m.msg_type.as_str());
    push_opt_i32_field(&mut out, ",\"x\":", m.x);
    push_opt_i32_field(&mut out, ",\"y\":", m.y);
    push_opt_str_field(&mut out, ",\"button\":", &m.button);
    push_opt_str_field(&mut out, ",\"action\":", &m.action);
    push_opt_u32_field(&mut out, ",\"key_code\":", m.key_code);
    push_opt_str_field(&mut out, ",\"text\":", &m.text);
    push_opt_str_field(&mut out, ",\"name\":", &m.name);
    push_opt_str_field(&mut out, ",\"version\":", &m.version);
    push_screens_field(&mut out, ",\"screens\":", &m.screens);
    push_opt_str_field(&mut out, ",\"computer_type\":", &m.computer_type);
    push_opt_str_field(&mut out, ",\"layout\":", &m.layout);
    push_str(&mut out, "}");
    proof {
        assert(out@ =~= spec_encode(m@));
    }
    chars_to_string(&out)
}

} // verus!
