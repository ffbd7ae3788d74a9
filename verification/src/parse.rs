//! The wire decoding of protocol messages: the inverse of the encoder.
//!
//! A line is one flat JSON object with a leading required `type` field;
//! the optional fields may come in any order, each at most meaningfully
//! once (a repeated field keeps its last value). Unknown fields are
//! ignored whatever well-formed JSON value they hold, as the schema asks;
//! anything else — bad syntax, a missing `type`, an out-of-range number,
//! trailing bytes — makes the line malformed, and [`parse_message`]
//! returns nothing so the reader can skip it and keep the connection.

use vstd::prelude::*;
use crate::discovery::chars_eq_str;
use crate::messages::{Message, MessageV};
use crate::screens::{ScreenData, ScreenV};
use crate::text::{chars_to_string, str_chars};

verus! {

pub open spec fn is_digit(c: char) -> bool {
    48 <= c as u32 <= 57
}

pub open spec fn digit_val(c: char) -> int {
    c as u32 - 48
}

pub open spec fn is_hex(c: char) -> bool {
    is_digit(c) || 97 <= c as u32 <= 102
}

pub open spec fn hex_val(c: char) -> int {
    if is_digit(c) {
        digit_val(c)
    } else {
        c as u32 - 87
    }
}

/// Consumes `lit` at `i`, or fails.
pub open spec fn p_lit(s: Seq<char>, i: int, lit: Seq<char>) -> Option<int>
    decreases lit.len(),
{
    if lit.len() == 0 {
        Some(i)
    } else if 0 <= i < s.len() && s[i] == lit[0] {
        p_lit(s, i + 1, lit.drop_first())
    } else {
        None
    }
}

/// The body of a JSON string, starting after the opening quote: yields
/// the unescaped characters and the index after the closing quote.
pub open spec fn p_chars(s: Seq<char>, i: int) -> Option<(Seq<char>, int)>
    decreases s.len() - i,
{
    if i < 0 || i >= s.len() {
        None
    } else if s[i] == '"' {
        Some((Seq::empty(), i + 1))
    } else if s[i] == '\\' {
        if i + 1 >= s.len() {
            None
        } else {
            let e = s[i + 1];
            if e == '"' || e == '\\' || e == '/' {
                p_chars_cons(e, p_chars(s, i + 2))
            } else if e == 'b' {
                p_chars_cons('\u{8}', p_chars(s, i + 2))
            } else if e == 't' {
                p_chars_cons('\u{9}', p_chars(s, i + 2))
            } else if e == 'n' {
                p_chars_cons('\u{a}', p_chars(s, i + 2))
            } else if e == 'f' {
                p_chars_cons('\u{c}', p_chars(s, i + 2))
            } else if e == 'r' {
                p_chars_cons('\u{d}', p_chars(s, i + 2))
            } else if e == 'u' {
                if i + 5 >= s.len() {
                    None
                } else if s[i + 2] == '0' && s[i + 3] == '0' && is_hex(s[i + 4]) && is_hex(
                    s[i + 5],
                ) && hex_val(s[i + 4]) * 16 + hex_val(s[i + 5]) < 0x20 {
                    p_chars_cons(
                        (hex_val(s[i + 4]) * 16 + hex_val(s[i + 5])) as char,
                        p_chars(s, i + 6),
                    )
                } else {
                    None
                }
            } else {
                None
            }
        }
    } else if (s[i] as u32) >= 0x20 {
        p_chars_cons(s[i], p_chars(s, i + 1))
    } else {
        None
    }
}

pub open spec fn p_chars_cons(c: char, rest: Option<(Seq<char>, int)>) -> Option<(Seq<char>, int)> {
    match rest {
        Some((v, j)) => Some((seq![c] + v, j)),
        None => None,
    }
}

/// A JSON string with its quotes.
pub open spec fn p_string(s: Seq<char>, i: int) -> Option<(Seq<char>, int)> {
    if 0 <= i < s.len() && s[i] == '"' {
        p_chars(s, i + 1)
    } else {
        None
    }
}

/// Digits after the first, most significant first, capped so the value
/// always fits the widest field type.
pub open spec fn p_digits(s: Seq<char>, i: int, acc: int) -> Option<(int, int)>
    decreases s.len() - i,
{
    if 0 <= i < s.len() && is_digit(s[i]) {
        let a2 = acc * 10 + digit_val(s[i]);
        if a2 > 0xFFFF_FFFF {
            None
        } else {
            p_digits(s, i + 1, a2)
        }
    } else {
        Some((acc, i))
    }
}

/// A non-negative decimal number without leading zeros.
pub open spec fn p_uint(s: Seq<char>, i: int) -> Option<(int, int)> {
    if 0 <= i < s.len() && is_digit(s[i]) {
        if s[i] == '0' {
            Some((0, i + 1))
        } else {
            p_digits(s, i, 0)
        }
    } else {
        None
    }
}

/// A possibly negative decimal number.
pub open spec fn p_int(s: Seq<char>, i: int) -> Option<(int, int)> {
    if 0 <= i < s.len() && s[i] == '-' {
        match p_uint(s, i + 1) {
            Some((v, j)) => Some((-v, j)),
            None => None,
        }
    } else {
        p_uint(s, i)
    }
}

/// A number that must fit a signed 32-bit field.
pub open spec fn p_i32(s: Seq<char>, i: int) -> Option<(i32, int)> {
    match p_int(s, i) {
        Some((v, j)) => if i32::MIN <= v <= i32::MAX {
            Some((v as i32, j))
        } else {
            None
        },
        None => None,
    }
}

/// A number that must fit an unsigned 32-bit field.
pub open spec fn p_u32(s: Seq<char>, i: int) -> Option<(u32, int)> {
    match p_uint(s, i) {
        Some((v, j)) => if v <= u32::MAX {
            Some((v as u32, j))
        } else {
            None
        },
        None => None,
    }
}

/// `true` or `false`.
pub open spec fn p_bool(s: Seq<char>, i: int) -> Option<(bool, int)> {
    match p_lit(s, i, "true"@) {
        Some(j) => Some((true, j)),
        None => match p_lit(s, i, "false"@) {
            Some(j) => Some((false, j)),
            None => None,
        },
    }
}

/// One display object of a `screens` array, fields in the order the
/// encoder writes them.
pub open spec fn p_screen(s: Seq<char>, i: int) -> Option<(ScreenV, int)> {
    match p_lit(s, i, "{\"name\":"@) {
        Some(i1) => match p_string(s, i1) {
            Some((name, i2)) => match p_lit(s, i2, ",\"x\":"@) {
                Some(i3) => match p_i32(s, i3) {
                    Some((x, i4)) => match p_lit(s, i4, ",\"y\":"@) {
                        Some(i5) => match p_i32(s, i5) {
                            Some((y, i6)) => match p_lit(s, i6, ",\"width\":"@) {
                                Some(i7) => match p_i32(s, i7) {
                                    Some((w, i8)) => match p_lit(s, i8, ",\"height\":"@) {
                                        Some(i9) => match p_i32(s, i9) {
                                            Some((h, i10)) => match p_lit(
                                                s,
                                                i10,
                                                ",\"is_primary\":"@,
                                            ) {
                                                Some(i11) => match p_bool(s, i11) {
                                                    Some((p, i12)) => match p_lit(s, i12, "}"@) {
                                                        Some(i13) => Some(
                                                            (
                                                                ScreenV {
                                                                    name,
                                                                    x: x as int,
                                                                    y: y as int,
                                                                    width: w as int,
                                                                    height: h as int,
                                                                    is_primary: p,
                                                                },
                                                                i13,
                                                            ),
                                                        ),
                                                        None => None,
                                                    },
                                                    None => None,
                                                },
                                                None => None,
                                            },
                                            None => None,
                                        },
                                        None => None,
                                    },
                                    None => None,
                                },
                                None => None,
                            },
                            None => None,
                        },
                        None => None,
                    },
                    None => None,
                },
                None => None,
            },
            None => None,
        },
        None => None,
    }
}

/// The displays after the first, up to the closing bracket.
pub open spec fn p_screens_rest(s: Seq<char>, i: int, acc: Seq<ScreenV>, fuel: nat) -> Option<
    (Seq<ScreenV>, int),
>
    decreases fuel,
{
    if i < 0 || i >= s.len() {
        None
    } else if s[i] == ']' {
        Some((acc, i + 1))
    } else if s[i] == ',' && fuel > 0 {
        match p_screen(s, i + 1) {
            Some((sc, j)) => p_screens_rest(s, j, acc.push(sc), (fuel - 1) as nat),
            None => None,
        }
    } else {
        None
    }
}

/// A `screens` array.
pub open spec fn p_screens(s: Seq<char>, i: int) -> Option<(Seq<ScreenV>, int)> {
    if 0 <= i < s.len() && s[i] == '[' {
        if i + 1 < s.len() && s[i + 1] == ']' {
            Some((Seq::empty(), i + 2))
        } else {
            match p_screen(s, i + 1) {
                Some((sc, j)) => p_screens_rest(s, j, seq![sc], s.len() as nat),
                None => None,
            }
        }
    } else {
        None
    }
}

/// A scalar value of an unknown field, skipped without being kept.
pub open spec fn p_skip_scalar(s: Seq<char>, i: int) -> Option<int> {
    match p_string(s, i) {
        Some((_v, j)) => Some(j),
        None => match p_int(s, i) {
            Some((_v, j)) => Some(j),
            None => match p_bool(s, i) {
                Some((_v, j)) => Some(j),
                None => match p_lit(s, i, "null"@) {
                    Some(j) => Some(j),
                    None => None,
                },
            },
        },
    }
}

/// Any JSON value of an unknown field, skipped without being kept: a
/// scalar, or an object or array of such values; the fuel bounds the
/// nesting.
pub open spec fn p_skip_value_rec(s: Seq<char>, i: int, fuel: nat) -> Option<int>
    decreases fuel,
{
    match p_skip_scalar(s, i) {
        Some(j) => Some(j),
        None => {
            if fuel == 0 || i < 0 || i >= s.len() {
                None
            } else if s[i] == '{' {
                p_skip_members(s, i + 1, (fuel - 1) as nat)
            } else if s[i] == '[' {
                p_skip_elems(s, i + 1, (fuel - 1) as nat)
            } else {
                None
            }
        },
    }
}

/// The members of a skipped object, from its first member or closing
/// brace.
pub open spec fn p_skip_members(s: Seq<char>, i: int, fuel: nat) -> Option<int>
    decreases fuel,
{
    if fuel == 0 || i < 0 || i >= s.len() {
        None
    } else if s[i] == '}' {
        Some(i + 1)
    } else {
        match p_string(s, i) {
            Some((_k, j)) => if j < s.len() && s[j] == ':' {
                match p_skip_value_rec(s, j + 1, (fuel - 1) as nat) {
                    Some(v) => p_skip_more_members(s, v, (fuel - 1) as nat),
                    None => None,
                }
            } else {
                None
            },
            None => None,
        }
    }
}

/// The members of a skipped object after the first.
pub open spec fn p_skip_more_members(s: Seq<char>, i: int, fuel: nat) -> Option<int>
    decreases fuel,
{
    if fuel == 0 || i < 0 || i >= s.len() {
        None
    } else if s[i] == '}' {
        Some(i + 1)
    } else if s[i] == ',' {
        match p_string(s, i + 1) {
            Some((_k, j)) => if j < s.len() && s[j] == ':' {
                match p_skip_value_rec(s, j + 1, (fuel - 1) as nat) {
                    Some(v) => p_skip_more_members(s, v, (fuel - 1) as nat),
                    None => None,
                }
            } else {
                None
            },
            None => None,
        }
    } else {
        None
    }
}

/// The elements of a skipped array, from its first element or closing
/// bracket.
pub open spec fn p_skip_elems(s: Seq<char>, i: int, fuel: nat) -> Option<int>
    decreases fuel,
{
    if fuel == 0 || i < 0 || i >= s.len() {
        None
    } else if s[i] == ']' {
        Some(i + 1)
    } else {
        match p_skip_value_rec(s, i, (fuel - 1) as nat) {
            Some(v) => p_skip_more_elems(s, v, (fuel - 1) as nat),
            None => None,
        }
    }
}

/// The elements of a skipped array after the first.
pub open spec fn p_skip_more_elems(s: Seq<char>, i: int, fuel: nat) -> Option<int>
    decreases fuel,
{
    if fuel == 0 || i < 0 || i >= s.len() {
        None
    } else if s[i] == ']' {
        Some(i + 1)
    } else if s[i] == ',' {
        match p_skip_value_rec(s, i + 1, (fuel - 1) as nat) {
            Some(v) => p_skip_more_elems(s, v, (fuel - 1) as nat),
            None => None,
        }
    } else {
        None
    }
}

/// Any JSON value of an unknown field: the whole input's length bounds
/// any well-formed nesting.
pub open spec fn p_skip_value(s: Seq<char>, i: int) -> Option<int> {
    p_skip_value_rec(s, i, s.len() as nat)
}

/// The fields after `type`, in any order, dispatched by key, up to the
/// closing brace.
pub open spec fn p_fields(s: Seq<char>, i: int, m: MessageV, fuel: nat) -> Option<(MessageV, int)>
    decreases fuel,
{
    if i < 0 || i >= s.len() {
        None
    } else if s[i] == '}' {
        Some((m, i + 1))
    } else if s[i] == ',' && fuel > 0 {
        match p_string(s, i + 1) {
            Some((key, j)) => if j < s.len() && s[j] == ':' {
                let k = j + 1;
                if key == "x"@ {
                    match p_i32(s, k) {
                        Some((v, j2)) => p_fields(
                            s,
                            j2,
                            MessageV { x: Some(v), ..m },
                            (fuel - 1) as nat,
                        ),
                        None => None,
                    }
                } else if key == "y"@ {
                    match p_i32(s, k) {
                        Some((v, j2)) => p_fields(
                            s,
                            j2,
                            MessageV { y: Some(v), ..m },
                            (fuel - 1) as nat,
                        ),
                        None => None,
                    }
                } else if key == "button"@ {
                    match p_string(s, k) {
                        Some((v, j2)) => p_fields(
                            s,
                            j2,
                            MessageV { button: Some(v), ..m },
                            (fuel - 1) as nat,
                        ),
                        None => None,
                    }
                } else if key == "action"@ {
                    match p_string(s, k) {
                        Some((v, j2)) => p_fields(
                            s,
                            j2,
                            MessageV { action: Some(v), ..m },
                            (fuel - 1) as nat,
                        ),
                        None => None,
                    }
                } else if key == "key_code"@ {
                    match p_u32(s, k) {
                        Some((v, j2)) => p_fields(
                            s,
                            j2,
                            MessageV { key_code: Some(v), ..m },
                            (fuel - 1) as nat,
                        ),
                        None => None,
                    }
                } else if key == "text"@ {
                    match p_string(s, k) {
                        Some((v, j2)) => p_fields(
                            s,
                            j2,
                            MessageV { text: Some(v), ..m },
                            (fuel - 1) as nat,
                        ),
                        None => None,
                    }
                } else if key == "name"@ {
                    match p_string(s, k) {
                        Some((v, j2)) => p_fields(
                            s,
                            j2,
                            MessageV { name: Some(v), ..m },
                            (fuel - 1) as nat,
                        ),
                        None => None,
                    }
                } else if key == "version"@ {
                    match p_string(s, k) {
                        Some((v, j2)) => p_fields(
                            s,
                            j2,
                            MessageV { version: Some(v), ..m },
                            (fuel - 1) as nat,
                        ),
                        None => None,
                    }
                } else if key == "screens"@ {
                    match p_screens(s, k) {
                        Some((v, j2)) => p_fields(
                            s,
                            j2,
                            MessageV { screens: Some(v), ..m },
                            (fuel - 1) as nat,
                        ),
                        None => None,
                    }
                } else if key == "computer_type"@ {
                    match p_string(s, k) {
                        Some((v, j2)) => p_fields(
                            s,
                            j2,
                            MessageV { computer_type: Some(v), ..m },
                            (fuel - 1) as nat,
                        ),
                        None => None,
                    }
                } else if key == "layout"@ {
                    match p_string(s, k) {
                        Some((v, j2)) => p_fields(
                            s,
                            j2,
                            MessageV { layout: Some(v), ..m },
                            (fuel - 1) as nat,
                        ),
                        None => None,
                    }
                } else {
                    match p_skip_value(s, k) {
                        Some(j2) => p_fields(s, j2, m, (fuel - 1) as nat),
                        None => None,
                    }
                }
            } else {
                None
            },
            None => None,
        }
    } else {
        None
    }
}

/// A fresh message model carrying only its `type`.
pub open spec fn empty_message_v(t: Seq<char>) -> MessageV {
    MessageV {
        msg_type: t,
        x: None,
        y: None,
        button: None,
        action: None,
        key_code: None,
        text: None,
        name: None,
        version: None,
        screens: None,
        computer_type: None,
        layout: None,
    }
}

/// The whole line: a flat object opening with the `type` field, nothing
/// before or after.
pub open spec fn spec_parse(s: Seq<char>) -> Option<MessageV> {
    match p_lit(s, 0, "{\"type\":"@) {
        Some(i) => match p_string(s, i) {
            Some((t, j)) => match p_fields(s, j, empty_message_v(t), s.len() as nat) {
                Some((m, k)) => if k == s.len() {
                    Some(m)
                } else {
                    None
                },
                None => None,
            },
            None => None,
        },
        None => None,
    }
}

/// A character that is written literally inside a JSON string.
pub open spec fn plain_char(c: char) -> bool {
    c != '"' && c != '\\' && (c as u32) >= 0x20
}

pub open spec fn plain_chars(v: Seq<char>) -> bool {
    forall|i: int| 0 <= i < v.len() ==> plain_char(#[trigger] v[i])
}

/// Plain characters escape to themselves.
pub proof fn lemma_esc_plain(v: Seq<char>)
    requires
        plain_chars(v),
    ensures
        crate::codec::spec_esc(v) == v,
    decreases v.len(),
{
    if v.len() > 0 {
        assert(plain_chars(v.drop_last())) by {
            assert(forall|i: int|
                0 <= i < v.drop_last().len() ==> v.drop_last()[i] == #[trigger] v[i]);
        }
        lemma_esc_plain(v.drop_last());
        assert(plain_char(v.last()));
        assert(crate::codec::spec_esc_char(v.last()) =~= seq![v.last()]);
        assert(crate::codec::spec_esc(v) =~= v);
    }
}

/// Consuming a literal that sits verbatim in the input.
pub proof fn lemma_p_lit(s: Seq<char>, i: int, lit: Seq<char>)
    requires
        0 <= i,
        i + lit.len() <= s.len(),
        s.subrange(i, i + lit.len()) == lit,
    ensures
        p_lit(s, i, lit) == Some(i + lit.len()),
    decreases lit.len(),
{
    if lit.len() > 0 {
        assert(s[i] == s.subrange(i, i + lit.len())[0]);
        assert(s[i] == lit[0]);
        assert(s.subrange(i + 1, i + 1 + lit.drop_first().len()) =~= lit.drop_first()) by {
            assert(forall|t: int| 0 <= t < lit.len() ==> s.subrange(i, i + lit.len())[t]
                == #[trigger] lit[t]);
        }
        lemma_p_lit(s, i + 1, lit.drop_first());
    }
}

/// Reading plain string content up to its closing quote.
pub proof fn lemma_p_chars_plain(s: Seq<char>, i: int, v: Seq<char>)
    requires
        0 <= i,
        i + v.len() + 1 <= s.len(),
        plain_chars(v),
        s.subrange(i, i + v.len()) == v,
        s[i + v.len()] == '"',
    ensures
        p_chars(s, i) == Some((v, i + v.len() + 1)),
    decreases v.len(),
{
    if v.len() == 0 {
        assert(s[i] == '"');
        assert(p_chars(s, i) == Some((Seq::<char>::empty(), i + 1)));
        assert(v =~= Seq::<char>::empty());
    } else {
        assert(s[i] == s.subrange(i, i + v.len())[0]);
        assert(s[i] == v[0]);
        assert(plain_char(v[0]));
        let v2 = v.drop_first();
        assert(plain_chars(v2)) by {
            assert(forall|t: int| 0 <= t < v2.len() ==> v2[t] == #[trigger] v[t + 1]);
        }
        assert(s.subrange(i + 1, i + 1 + v2.len()) =~= v2) by {
            assert(forall|t: int| 0 <= t < v.len() ==> s.subrange(i, i + v.len())[t]
                == #[trigger] v[t]);
        }
        assert(s[i + 1 + v2.len()] == '"');
        lemma_p_chars_plain(s, i + 1, v2);
        assert(seq![v[0]] + v2 =~= v);
    }
}

/// The escape of a string, decomposed at its first character.
pub proof fn lemma_esc_front(v: Seq<char>)
    requires
        v.len() > 0,
    ensures
        crate::codec::spec_esc(v) == crate::codec::spec_esc_char(v[0]) + crate::codec::spec_esc(
            v.drop_first(),
        ),
    decreases v.len(),
{
    if v.len() == 1 {
        assert(v.drop_last() =~= Seq::<char>::empty());
        assert(crate::codec::spec_esc(v.drop_first()) =~= Seq::<char>::empty()) by {
            assert(v.drop_first() =~= Seq::<char>::empty());
        }
        assert(crate::codec::spec_esc(v) =~= crate::codec::spec_esc_char(v[0])
            + crate::codec::spec_esc(v.drop_first()));
    } else {
        let w = v.drop_last();
        lemma_esc_front(w);
        assert(w[0] == v[0]);
        assert(w.drop_first() =~= v.drop_first().drop_last());
        assert(v.drop_first().last() == v.last());
        assert(crate::codec::spec_esc(v.drop_first()) == crate::codec::spec_esc(
            v.drop_first().drop_last(),
        ) + crate::codec::spec_esc_char(v.last()));
        assert(crate::codec::spec_esc(v) =~= crate::codec::spec_esc_char(v[0])
            + crate::codec::spec_esc(v.drop_first()));
    }
}

/// Reading escaped string content up to its closing quote undoes the
/// escaping exactly.
pub proof fn lemma_p_chars_esc(s: Seq<char>, i: int, v: Seq<char>)
    requires
        0 <= i,
        i + crate::codec::spec_esc(v).len() + 1 <= s.len(),
        s.subrange(i, i + crate::codec::spec_esc(v).len()) == crate::codec::spec_esc(v),
        s[i + crate::codec::spec_esc(v).len()] == '"',
    ensures
        p_chars(s, i) == Some((v, i + crate::codec::spec_esc(v).len() + 1)),
    decreases v.len(),
{
    let ev = crate::codec::spec_esc(v);
    if v.len() == 0 {
        assert(ev =~= Seq::<char>::empty());
        assert(s[i] == '"');
        assert(v =~= Seq::<char>::empty());
    } else {
        let c = v[0];
        let v2 = v.drop_first();
        lemma_esc_front(v);
        let ec = crate::codec::spec_esc_char(c);
        let e2 = crate::codec::spec_esc(v2);
        assert(ev == ec + e2);
        assert(forall|t: int| 0 <= t < ev.len() ==> s[i + t] == #[trigger] ev[t]) by {
            assert(forall|t: int| 0 <= t < ev.len() ==> s.subrange(i, i + ev.len())[t]
                == #[trigger] ev[t]);
        }
        let i2 = i + ec.len() as int;
        assert(s.subrange(i2, i2 + e2.len() as int) =~= e2) by {
            assert(forall|t: int| 0 <= t < e2.len() ==> ev[ec.len() + t] == #[trigger] e2[t]);
        }
        assert(s[i2 + e2.len() as int] == '"');
        lemma_p_chars_esc(s, i2, v2);
        let j = i + ev.len() as int + 1;
        assert(p_chars(s, i2) == Some((v2, j)));
        assert(seq![c] + v2 =~= v);
        assert(forall|t: int| 0 <= t < ec.len() ==> #[trigger] ev[t] == ec[t]);
        if c == '"' || c == '\\' {
            assert(ec =~= seq!['\\', c]);
            assert(ev[0] == '\\' && ev[1] == c);
            assert(s[i + 0] == ev[0] && s[i + 1] == ev[1]);
            assert(s[i] == '\\' && s[i + 1] == c);
            assert(i2 == i + 2);
            assert(p_chars(s, i) == p_chars_cons(c, p_chars(s, i + 2)));
        } else if c == '\u{8}' {
            assert(ec =~= seq!['\\', 'b']);
            assert(ev[0] == '\\' && ev[1] == 'b');
            assert(s[i + 0] == ev[0] && s[i + 1] == ev[1]);
            assert(s[i] == '\\' && s[i + 1] == 'b');
            assert(p_chars(s, i) == p_chars_cons('\u{8}', p_chars(s, i + 2)));
        } else if c == '\u{9}' {
            assert(ec =~= seq!['\\', 't']);
            assert(ev[0] == '\\' && ev[1] == 't');
            assert(s[i + 0] == ev[0] && s[i + 1] == ev[1]);
            assert(s[i] == '\\' && s[i + 1] == 't');
            assert(p_chars(s, i) == p_chars_cons('\u{9}', p_chars(s, i + 2)));
        } else if c == '\u{a}' {
            assert(ec =~= seq!['\\', 'n']);
            assert(ev[0] == '\\' && ev[1] == 'n');
            assert(s[i + 0] == ev[0] && s[i + 1] == ev[1]);
            assert(s[i] == '\\' && s[i + 1] == 'n');
            assert(p_chars(s, i) == p_chars_cons('\u{a}', p_chars(s, i + 2)));
        } else if c == '\u{c}' {
            assert(ec =~= seq!['\\', 'f']);
            assert(ev[0] == '\\' && ev[1] == 'f');
            assert(s[i + 0] == ev[0] && s[i + 1] == ev[1]);
            assert(s[i] == '\\' && s[i + 1] == 'f');
            assert(p_chars(s, i) == p_chars_cons('\u{c}', p_chars(s, i + 2)));
        } else if c == '\u{d}' {
            assert(ec =~= seq!['\\', 'r']);
            assert(ev[0] == '\\' && ev[1] == 'r');
            assert(s[i + 0] == ev[0] && s[i + 1] == ev[1]);
            assert(s[i] == '\\' && s[i + 1] == 'r');
            assert(p_chars(s, i) == p_chars_cons('\u{d}', p_chars(s, i + 2)));
        } else if (c as u32) < 0x20 {
            let u = c as u32;
            let h1 = crate::codec::spec_hex_char(((u as int) / 16) as nat);
            let h2 = crate::codec::spec_hex_char(((u as int) % 16) as nat);
            assert(ec =~= seq!['\\', 'u', '0', '0', h1, h2]);
            assert(ev[0] == '\\' && ev[1] == 'u' && ev[2] == '0' && ev[3] == '0'
                && ev[4] == h1 && ev[5] == h2);
            assert(s[i + 0] == ev[0] && s[i + 1] == ev[1] && s[i + 2] == ev[2]
                && s[i + 3] == ev[3] && s[i + 4] == ev[4] && s[i + 5] == ev[5]);
            assert(s[i] == '\\' && s[i + 1] == 'u' && s[i + 2] == '0' && s[i + 3] == '0');
            assert(s[i + 4] == h1 && s[i + 5] == h2);
            assert((u as int) / 16 < 16 && (u as int) % 16 < 16);
            lemma_hex_char_val(((u as int) / 16) as nat);
            lemma_hex_char_val(((u as int) % 16) as nat);
            assert(is_hex(h1) && hex_val(h1) == (u as int) / 16);
            assert(is_hex(h2) && hex_val(h2) == (u as int) % 16);
            assert(hex_val(h1) * 16 + hex_val(h2) == u as int) by {
                vstd::arithmetic::div_mod::lemma_fundamental_div_mod(u as int, 16);
            }
            let w = hex_val(h1) * 16 + hex_val(h2);
            assert(w == u as int);
            assert(0 <= w < 0x20);
            vstd::utf8::char_u32_cast(c, u);
            assert((u as char) == c);
            assert((w as char) == (u as char));
            assert((w as char) == c);
            assert(i2 == i + 6);
            assert(p_chars(s, i) == p_chars_cons(c, p_chars(s, i + 6)));
        } else {
            assert(ec =~= seq![c]);
            assert(ev[0] == c);
            assert(s[i + 0] == ev[0]);
            assert(s[i] == c);
            assert(c != '"' && c != '\\' && (c as u32) >= 0x20);
            assert(p_chars(s, i) == p_chars_cons(c, p_chars(s, i + 1)));
        }
    }
}

proof fn lemma_hex_char_val(d: nat)
    requires
        d < 16,
    ensures
        is_hex(crate::codec::spec_hex_char(d)),
        hex_val(crate::codec::spec_hex_char(d)) == d,
{
}

/// A whole JSON string undoes to its content.
pub proof fn lemma_p_string(s: Seq<char>, i: int, v: Seq<char>)
    requires
        0 <= i,
        i + crate::codec::spec_json_string(v).len() <= s.len(),
        s.subrange(i, i + crate::codec::spec_json_string(v).len())
            == crate::codec::spec_json_string(v),
    ensures
        p_string(s, i) == Some((v, i + crate::codec::spec_json_string(v).len())),
{
    let jv = crate::codec::spec_json_string(v);
    let ev = crate::codec::spec_esc(v);
    assert(jv == seq!['"'] + ev + seq!['"']);
    assert(forall|t: int| 0 <= t < jv.len() ==> s[i + t] == #[trigger] jv[t]) by {
        assert(forall|t: int| 0 <= t < jv.len() ==> s.subrange(i, i + jv.len())[t]
            == #[trigger] jv[t]);
    }
    assert(jv[0] == '"');
    assert(s[i + 0] == jv[0]);
    assert(s[i] == '"');
    assert(s.subrange(i + 1, i + 1 + ev.len() as int) =~= ev) by {
        assert(forall|t: int| 0 <= t < ev.len() ==> jv[1 + t] == #[trigger] ev[t]);
    }
    assert(jv[1 + ev.len() as int] == '"');
    assert(s[i + (1 + ev.len() as int)] == jv[1 + ev.len() as int]);
    assert(s[i + 1 + ev.len() as int] == '"');
    lemma_p_chars_esc(s, i + 1, v);
}

/// Ten to the `e`.
pub open spec fn pow10(e: nat) -> nat
    decreases e,
{
    if e == 0 {
        1
    } else {
        10 * pow10((e - 1) as nat)
    }
}

/// Consuming one block of rendered digits accumulates its value.
pub proof fn lemma_p_digits_step(s: Seq<char>, i: int, n: nat, acc: nat)
    requires
        0 <= i,
        i + crate::text::spec_digits(n).len() <= s.len(),
        s.subrange(i, i + crate::text::spec_digits(n).len()) == crate::text::spec_digits(n),
        acc * pow10(crate::text::spec_digits(n).len()) + n <= 0xFFFF_FFFF,
    ensures
        p_digits(s, i, acc as int) == p_digits(
            s,
            i + crate::text::spec_digits(n).len(),
            (acc * pow10(crate::text::spec_digits(n).len()) + n) as int,
        ),
    decreases n,
{
    let ds = crate::text::spec_digits(n);
    let l = ds.len();
    if n < 10 {
        assert(ds =~= seq![crate::text::spec_digit_char(n % 10)]);
        assert(n % 10 == n);
        assert(s[i] == ds[0]);
        assert(is_digit(s[i]) && digit_val(s[i]) == n) by {
            assert(s[i] == crate::text::spec_digit_char(n));
        }
        assert(pow10(1) == 10 * pow10(0));
        assert(acc * 10 + n <= 0xFFFF_FFFF);
        assert(p_digits(s, i, acc as int) == p_digits(s, i + 1, (acc * 10 + n) as int));
    } else {
        let hi = n / 10;
        let lo = n % 10;
        let dhi = crate::text::spec_digits(hi);
        assert(ds == dhi + seq![crate::text::spec_digit_char(lo)]);
        assert(l == dhi.len() + 1);
        let acc2 = acc * pow10(dhi.len()) + hi;
        assert(s.subrange(i, i + dhi.len()) =~= dhi) by {
            assert(forall|t: int| 0 <= t < l ==> s.subrange(i, i + l)[t] == #[trigger] ds[t]);
        }
        assert(pow10(l) == 10 * pow10(dhi.len()));
        assert(acc * pow10(l) + n == acc2 * 10 + lo) by {
            assert(n == hi * 10 + lo) by {
                vstd::arithmetic::div_mod::lemma_fundamental_div_mod(n as int, 10);
            }
            assert(acc * (10 * pow10(dhi.len())) == (acc * pow10(dhi.len())) * 10)
                by (nonlinear_arith);
            assert((acc * pow10(dhi.len()) + hi) * 10 == (acc * pow10(dhi.len())) * 10 + hi
                * 10) by (nonlinear_arith);
        }
        assert(acc2 * pow10(1) + lo <= 0xFFFF_FFFF) by {
            assert(pow10(1) == 10 * pow10(0));
        }
        lemma_p_digits_step(s, i, hi, acc);
        let j = i + dhi.len();
        assert(s[j] == ds[dhi.len() as int]);
        assert(s[j] == crate::text::spec_digit_char(lo));
        assert(is_digit(s[j]) && digit_val(s[j]) == lo);
        assert(acc2 * 10 + lo <= 0xFFFF_FFFF);
        assert(p_digits(s, j, acc2 as int) == p_digits(s, j + 1, (acc2 * 10 + lo) as int));
    }
}

/// The first rendered digit is zero only for zero itself.
pub proof fn lemma_digits_head(n: nat)
    ensures
        crate::text::spec_digits(n).len() >= 1,
        crate::text::spec_digits(n)[0] == '0' <==> n == 0,
    decreases n,
{
    if n >= 10 {
        lemma_digits_head(n / 10);
        assert(crate::text::spec_digits(n)[0] == crate::text::spec_digits(n / 10)[0]);
        assert(n / 10 > 0);
    } else {
        assert(n % 10 == n);
        assert(crate::text::spec_digits(n)[0] == crate::text::spec_digit_char(n));
    }
}

/// Reading a whole rendered non-negative number, stopped by a non-digit.
pub proof fn lemma_p_uint(s: Seq<char>, i: int, n: nat)
    requires
        0 <= i,
        i + crate::text::spec_digits(n).len() <= s.len(),
        s.subrange(i, i + crate::text::spec_digits(n).len()) == crate::text::spec_digits(n),
        n <= 0xFFFF_FFFF,
        i + crate::text::spec_digits(n).len() == s.len() || !is_digit(
            s[i + crate::text::spec_digits(n).len()],
        ),
    ensures
        p_uint(s, i) == Some((n as int, i + crate::text::spec_digits(n).len())),
{
    let ds = crate::text::spec_digits(n);
    let l = ds.len();
    let j = i + l;
    lemma_digits_head(n);
    assert(s[i] == ds[0]);
    assert(is_digit(s[i])) by {
        lemma_digits_first_is_digit(n);
    }
    if n == 0 {
        assert(ds =~= seq![crate::text::spec_digit_char(0)]);
        assert(s[i] == '0');
        assert(p_uint(s, i) == Some((0int, i + 1)));
    } else {
        assert(s[i] != '0');
        assert(pow10(l) >= 1) by {
            lemma_pow10_pos(l);
        }
        assert(0 * pow10(l) + n == n) by (nonlinear_arith);
        lemma_p_digits_step(s, i, n, 0);
        assert(p_digits(s, i, 0) == p_digits(s, j, n as int));
        assert(p_digits(s, j, n as int) == Some((n as int, j)));
    }
}

proof fn lemma_pow10_pos(e: nat)
    ensures
        pow10(e) >= 1,
    decreases e,
{
    if e > 0 {
        lemma_pow10_pos((e - 1) as nat);
    }
}

proof fn lemma_digits_first_is_digit(n: nat)
    ensures
        is_digit(crate::text::spec_digits(n)[0]),
    decreases n,
{
    if n >= 10 {
        lemma_digits_first_is_digit(n / 10);
        assert(crate::text::spec_digits(n)[0] == crate::text::spec_digits(n / 10)[0]);
    } else {
        assert(n % 10 == n);
        assert(crate::text::spec_digits(n)[0] == crate::text::spec_digit_char(n));
    }
}

/// Reading a whole rendered integer, stopped by a non-digit.
pub proof fn lemma_p_int(s: Seq<char>, i: int, v: int)
    requires
        0 <= i,
        -0xFFFF_FFFF <= v <= 0xFFFF_FFFF,
        i + crate::text::spec_int_chars(v).len() <= s.len(),
        s.subrange(i, i + crate::text::spec_int_chars(v).len()) == crate::text::spec_int_chars(
            v,
        ),
        i + crate::text::spec_int_chars(v).len() == s.len() || !is_digit(
            s[i + crate::text::spec_int_chars(v).len()],
        ),
    ensures
        p_int(s, i) == Some((v, i + crate::text::spec_int_chars(v).len())),
{
    let cs = crate::text::spec_int_chars(v);
    let l = cs.len();
    if v < 0 {
        let n = (-v) as nat;
        let ds = crate::text::spec_digits(n);
        assert(cs == seq!['-'] + ds);
        assert(s[i] == cs[0]);
        assert(s[i] == '-');
        assert forall|t: int| 0 <= t < ds.len() implies s.subrange(
            i + 1,
            i + 1 + ds.len() as int,
        )[t] == ds[t] by {
            assert(s.subrange(i, i + l)[t + 1] == cs[t + 1]);
            assert(cs[t + 1] == ds[t]);
        }
        assert(s.subrange(i + 1, i + 1 + ds.len() as int) =~= ds);
        lemma_p_uint(s, i + 1, n);
        assert(p_int(s, i) == Some((-(n as int), i + l)));
    } else {
        let n = v as nat;
        assert(cs == crate::text::spec_digits(n));
        lemma_p_uint(s, i, n);
        assert(s[i] == cs[0]);
        lemma_digits_first_is_digit(n);
        assert(is_digit(s[i]));
        assert(s[i] != '-') by {
            assert(('-' as u32) == 45);
        }
    }
}

/// The opening of every wire line: the brace and the `type` field parse
/// back to the type string.
proof fn lemma_parse_type_prefix(s: Seq<char>, t: Seq<char>)
    requires
        plain_chars(t),
        s.len() >= 10 + t.len(),
        s.subrange(0, 8) == "{\"type\":"@,
        s[8] == '"',
        s.subrange(9, 9 + t.len() as int) == t,
        s[9 + t.len() as int] == '"',
    ensures
        p_lit(s, 0, "{\"type\":"@) == Some(8int),
        p_string(s, 8) == Some((t, 10 + t.len() as int)),
{
    reveal_strlit("{\"type\":");
    assert("{\"type\":"@.len() == 8);
    lemma_p_lit(s, 0, "{\"type\":"@);
    lemma_p_chars_plain(s, 9, t);
}

/// A key of a field, written out and read back. The written form is the
/// comma, the quoted key name, the colon.
proof fn lemma_parse_key(s: Seq<char>, c: int, kn: Seq<char>)
    requires
        plain_chars(kn),
        0 <= c,
        c + kn.len() + 4 <= s.len(),
        s[c] == ',',
        s[c + 1] == '"',
        s.subrange(c + 2, c + 2 + kn.len() as int) == kn,
        s[c + 2 + kn.len() as int] == '"',
        s[c + 3 + kn.len() as int] == ':',
    ensures
        p_string(s, c + 1) == Some((kn, c + 3 + kn.len() as int)),
{
    lemma_p_chars_plain(s, c + 2, kn);
}

/// The wire round trip for the control-plane messages. Every message
/// whose only payload is the optional coordinate pair — `ping`, `pong`,
/// `mouse_move`, `control_start`, `control_end` — parses back from its
/// own encoding, so nothing the control loop or the liveness logic sends
/// is lost or distorted on the wire.
#[verifier::rlimit(100)]
#[verifier::spinoff_prover]
pub proof fn lemma_wire_round_trip_control(m: MessageV)
    requires
        plain_chars(m.msg_type),
        m.x is Some <==> m.y is Some,
        m.button is None,
        m.action is None,
        m.key_code is None,
        m.text is None,
        m.name is None,
        m.version is None,
        m.screens is None,
        m.computer_type is None,
        m.layout is None,
    ensures
        spec_parse(crate::codec::spec_encode(m)) == Some(m),
{
    reveal_strlit("{\"type\":");
    reveal_strlit("}");
    reveal_strlit(",\"x\":");
    reveal_strlit(",\"y\":");
    reveal_strlit("x");
    reveal_strlit("y");
    let t = m.msg_type;
    let s = crate::codec::spec_encode(m);
    lemma_esc_plain(t);
    let jt = crate::codec::spec_json_string(t);
    assert(jt == seq!['"'] + t + seq!['"']);
    assert("{\"type\":"@.len() == 8);
    assert("}"@.len() == 1);
    assert(",\"x\":"@.len() == 5);
    assert(",\"y\":"@.len() == 5);
    let c0 = 10 + t.len() as int;
    if m.x is None {
        assert(s =~= "{\"type\":"@ + jt + "}"@);
        assert(s.len() == c0 + 1);
        assert(s.subrange(0, 8) =~= "{\"type\":"@);
        lemma_p_lit(s, 0, "{\"type\":"@);
        assert(s[8] == '"');
        assert(s.subrange(9, 9 + t.len() as int) =~= t);
        assert(s[9 + t.len() as int] == '"');
        lemma_p_chars_plain(s, 9, t);
        assert(p_string(s, 8) == Some((t, c0)));
        assert(s[c0] == '}');
        assert(p_fields(s, c0, empty_message_v(t), s.len() as nat) == Some(
            (empty_message_v(t), c0 + 1),
        ));
        assert(empty_message_v(t) == m);
    } else {
        let x = m.x->0;
        let y = m.y->0;
        let icx = crate::text::spec_int_chars(x as int);
        let icy = crate::text::spec_int_chars(y as int);
        assert(icx.len() >= 1 && icy.len() >= 1) by {
            lemma_digits_head((if x >= 0 {
                x as nat
            } else {
                (-(x as int)) as nat
            }));
            lemma_digits_head((if y >= 0 {
                y as nat
            } else {
                (-(y as int)) as nat
            }));
        }
        assert(s =~= "{\"type\":"@ + jt + (",\"x\":"@ + icx) + (",\"y\":"@ + icy) + "}"@);
        let c1 = c0 + 5 + icx.len() as int;
        let c2 = c1 + 5 + icy.len() as int;
        assert(s.len() == c2 + 1);
        assert(s.subrange(0, 8) =~= "{\"type\":"@);
        lemma_p_lit(s, 0, "{\"type\":"@);
        assert(s[8] == '"');
        assert(s.subrange(9, 9 + t.len() as int) =~= t);
        assert(s[9 + t.len() as int] == '"');
        lemma_p_chars_plain(s, 9, t);
        assert(p_string(s, 8) == Some((t, c0)));
        // the x field
        assert(s[c0] == ',');
        assert(s[c0 + 1] == '"');
        assert(s.subrange(c0 + 2, c0 + 3) =~= "x"@);
        assert(s[c0 + 3] == '"');
        assert(plain_chars("x"@));
        lemma_p_chars_plain(s, c0 + 2, "x"@);
        assert(p_string(s, c0 + 1) == Some(("x"@, c0 + 4)));
        assert(s[c0 + 4] == ':');
        assert(s.subrange(c0 + 5, c0 + 5 + icx.len() as int) =~= icx);
        assert(s[c0 + 5 + icx.len() as int] == ',');
        assert(!is_digit(s[c1]));
        lemma_p_int(s, c0 + 5, x as int);
        assert(p_i32(s, c0 + 5) == Some((x, c1)));
        let m0 = empty_message_v(t);
        let m1 = MessageV { x: Some(x), ..m0 };
        let f0 = s.len() as nat;
        assert(f0 > 0);
        assert(p_fields(s, c0, m0, f0) == p_fields(s, c1, m1, (f0 - 1) as nat));
        // the y field and the closing brace
        assert(s.subrange(c1, c1 + 5) =~= ",\"y\":"@);
        assert(s.subrange(c1 + 5, c1 + 5 + icy.len() as int) =~= icy);
        assert(s[c2] == '}');
        lemma_y_tail(s, c1, y, m1, (f0 - 1) as nat);
        let m2 = MessageV { y: Some(y), ..m1 };
        assert((f0 - 1) as nat > 0);
        assert(p_fields(s, c1, m1, (f0 - 1) as nat) == Some((m2, c2 + 1)));
        assert(m2 == m);
    }
}

/// A trailing `y` field right before the closing brace.
#[verifier::rlimit(100)]
#[verifier::spinoff_prover]
proof fn lemma_y_tail(s: Seq<char>, c1: int, y: i32, macc: MessageV, f: nat)
    requires
        0 <= c1,
        f > 0,
        c1 + 6 + crate::text::spec_int_chars(y as int).len() <= s.len(),
        s.subrange(c1, c1 + 5) == ",\"y\":"@,
        s.subrange(c1 + 5, c1 + 5 + crate::text::spec_int_chars(y as int).len() as int)
            == crate::text::spec_int_chars(y as int),
        s[c1 + 5 + crate::text::spec_int_chars(y as int).len() as int] == '}',
    ensures
        p_fields(s, c1, macc, f) == Some(
            (
                MessageV { y: Some(y), ..macc },
                c1 + 6 + crate::text::spec_int_chars(y as int).len() as int,
            ),
        ),
{
    reveal_strlit(",\"y\":");
    reveal_strlit("y");
    reveal_strlit("x");
    let icy = crate::text::spec_int_chars(y as int);
    let vy = c1 + 5;
    let c2 = vy + icy.len() as int;
    let kl = ",\"y\":"@;
    assert(kl =~= seq![','] + seq!['"'] + "y"@ + seq!['"'] + seq![':']);
    assert(forall|t: int| 0 <= t < 5 ==> s[c1 + t] == #[trigger] kl[t]) by {
        assert(forall|t: int| 0 <= t < 5 ==> s.subrange(c1, c1 + 5)[t] == #[trigger] kl[t]);
    }
    assert(kl[0] == ',' && kl[1] == '"' && kl[2] == 'y' && kl[3] == '"' && kl[4] == ':');
    assert(s[c1 + 0] == kl[0] && s[c1 + 1] == kl[1] && s[c1 + 2] == kl[2] && s[c1 + 3]
        == kl[3] && s[c1 + 4] == kl[4]);
    assert(s[c1] == ',' && s[c1 + 1] == '"');
    assert(s.subrange(c1 + 2, c1 + 3) =~= "y"@);
    assert(s[c1 + 3] == '"' && s[c1 + 4] == ':');
    assert(plain_chars("y"@));
    lemma_parse_key(s, c1, "y"@);
    assert(!is_digit(s[c2]));
    lemma_p_int(s, vy, y as int);
    assert(p_i32(s, vy) == Some((y, c2)));
    assert("y"@ != "x"@) by {
        assert("y"@[0] == 'y' && "x"@[0] == 'x');
    }
    let m2 = MessageV { y: Some(y), ..macc };
    assert(p_fields(s, c1, macc, f) == p_fields(s, c2, m2, (f - 1) as nat));
    assert(p_fields(s, c2, m2, (f - 1) as nat) == Some((m2, c2 + 1)));
}

/// The wire round trip for a forwarded click: a `mouse_click` with any
/// button and action strings parses back from its own encoding.
#[verifier::rlimit(100)]
#[verifier::spinoff_prover]
pub proof fn lemma_wire_round_trip_click(m: MessageV)
    requires
        plain_chars(m.msg_type),
        m.button is Some,
        m.action is Some,
        m.x is None,
        m.y is None,
        m.key_code is None,
        m.text is None,
        m.name is None,
        m.version is None,
        m.screens is None,
        m.computer_type is None,
        m.layout is None,
    ensures
        spec_parse(crate::codec::spec_encode(m)) == Some(m),
{
    reveal_strlit("{\"type\":");
    reveal_strlit("}");
    reveal_strlit(",\"button\":");
    reveal_strlit(",\"action\":");
    reveal_strlit("button");
    reveal_strlit("action");
    reveal_strlit("x");
    reveal_strlit("y");
    let t = m.msg_type;
    let b = m.button->0;
    let a = m.action->0;
    let s = crate::codec::spec_encode(m);
    let jt = crate::codec::spec_json_string(t);
    let jb = crate::codec::spec_json_string(b);
    let ja = crate::codec::spec_json_string(a);
    lemma_esc_plain(t);
    assert(jt == seq!['"'] + t + seq!['"']);
    assert("{\"type\":"@.len() == 8);
    assert(",\"button\":"@.len() == 10);
    assert(",\"action\":"@.len() == 10);
    assert(s =~= "{\"type\":"@ + jt + (",\"button\":"@ + jb) + (",\"action\":"@ + ja) + "}"@);
    let c0 = 10 + t.len() as int;
    let vx = c0 + 10;
    let c1 = vx + jb.len() as int;
    let vy = c1 + 10;
    let c2 = vy + ja.len() as int;
    assert(s.len() == c2 + 1);
    assert(s.subrange(0, 8) =~= "{\"type\":"@);
    assert(s[8] == '"');
    assert(s.subrange(9, 9 + t.len() as int) =~= t);
    assert(s[9 + t.len() as int] == '"');
    lemma_parse_type_prefix(s, t);
    // the button field
    assert(",\"button\":"@ =~= seq![','] + seq!['"'] + "button"@ + seq!['"'] + seq![':']);
    assert(s.subrange(c0, c0 + 10) =~= ",\"button\":"@);
    assert(s[c0] == ',' && s[c0 + 1] == '"');
    assert(s.subrange(c0 + 2, c0 + 8) =~= "button"@);
    assert(s[c0 + 8] == '"' && s[c0 + 9] == ':');
    assert(plain_chars("button"@));
    lemma_parse_key(s, c0, "button"@);
    assert(s.subrange(vx, vx + jb.len() as int) =~= jb);
    lemma_p_string(s, vx, b);
    assert("button"@ != "x"@ && "button"@ != "y"@) by {
        assert("button"@.len() != "x"@.len() && "button"@.len() != "y"@.len());
    }
    let m0 = empty_message_v(t);
    let m1 = MessageV { button: Some(b), ..m0 };
    let f0 = s.len() as nat;
    assert(f0 > 0);
    assert(p_fields(s, c0, m0, f0) == p_fields(s, c1, m1, (f0 - 1) as nat));
    // the action field
    assert(",\"action\":"@ =~= seq![','] + seq!['"'] + "action"@ + seq!['"'] + seq![':']);
    assert(s.subrange(c1, c1 + 10) =~= ",\"action\":"@);
    assert(s[c1] == ',' && s[c1 + 1] == '"');
    assert(s.subrange(c1 + 2, c1 + 8) =~= "action"@);
    assert(s[c1 + 8] == '"' && s[c1 + 9] == ':');
    assert(plain_chars("action"@));
    lemma_parse_key(s, c1, "action"@);
    assert(s.subrange(vy, vy + ja.len() as int) =~= ja);
    lemma_p_string(s, vy, a);
    assert("action"@ != "x"@ && "action"@ != "y"@) by {
        assert("action"@.len() != "x"@.len() && "action"@.len() != "y"@.len());
    }
    assert("action"@ != "button"@) by {
        assert("action"@[0] == 'a' && "button"@[0] == 'b');
    }
    let m2 = MessageV { action: Some(a), ..m1 };
    assert((f0 - 1) as nat > 0);
    assert(p_fields(s, c1, m1, (f0 - 1) as nat) == p_fields(s, c2, m2, (f0 - 2) as nat));
    // the closing brace
    assert(s[c2] == '}');
    assert(p_fields(s, c2, m2, (f0 - 2) as nat) == Some((m2, c2 + 1)));
    assert(m2 == m);
}

/// The wire round trip for a forwarded key stroke: a `key_event` with
/// any action string and key code parses back from its own encoding.
#[verifier::rlimit(100)]
#[verifier::spinoff_prover]
pub proof fn lemma_wire_round_trip_key(m: MessageV)
    requires
        plain_chars(m.msg_type),
        m.action is Some,
        m.key_code is Some,
        m.x is None,
        m.y is None,
        m.button is None,
        m.text is None,
        m.name is None,
        m.version is None,
        m.screens is None,
        m.computer_type is None,
        m.layout is None,
    ensures
        spec_parse(crate::codec::spec_encode(m)) == Some(m),
{
    reveal_strlit("{\"type\":");
    reveal_strlit("}");
    reveal_strlit(",\"action\":");
    reveal_strlit(",\"key_code\":");
    reveal_strlit("action");
    reveal_strlit("key_code");
    reveal_strlit("x");
    reveal_strlit("y");
    reveal_strlit("button");
    let t = m.msg_type;
    let a = m.action->0;
    let kc = m.key_code->0;
    let s = crate::codec::spec_encode(m);
    let jt = crate::codec::spec_json_string(t);
    let ja = crate::codec::spec_json_string(a);
    let ick = crate::text::spec_int_chars(kc as int);
    let dk = crate::text::spec_digits(kc as nat);
    assert(ick == dk);
    lemma_esc_plain(t);
    assert(jt == seq!['"'] + t + seq!['"']);
    assert("{\"type\":"@.len() == 8);
    assert(",\"action\":"@.len() == 10);
    assert(",\"key_code\":"@.len() == 12);
    assert(s =~= "{\"type\":"@ + jt + (",\"action\":"@ + ja) + (",\"key_code\":"@ + ick)
        + "}"@);
    let c0 = 10 + t.len() as int;
    let vx = c0 + 10;
    let c1 = vx + ja.len() as int;
    let vy = c1 + 12;
    let c2 = vy + ick.len() as int;
    assert(s.len() == c2 + 1);
    assert(s.subrange(0, 8) =~= "{\"type\":"@);
    assert(s[8] == '"');
    assert(s.subrange(9, 9 + t.len() as int) =~= t);
    assert(s[9 + t.len() as int] == '"');
    lemma_parse_type_prefix(s, t);
    // the action field
    assert(",\"action\":"@ =~= seq![','] + seq!['"'] + "action"@ + seq!['"'] + seq![':']);
    assert(s.subrange(c0, c0 + 10) =~= ",\"action\":"@);
    assert(s[c0] == ',' && s[c0 + 1] == '"');
    assert(s.subrange(c0 + 2, c0 + 8) =~= "action"@);
    assert(s[c0 + 8] == '"' && s[c0 + 9] == ':');
    assert(plain_chars("action"@));
    lemma_parse_key(s, c0, "action"@);
    assert(s.subrange(vx, vx + ja.len() as int) =~= ja);
    lemma_p_string(s, vx, a);
    assert("action"@ != "x"@ && "action"@ != "y"@ && "action"@ != "button"@) by {
        assert("action"@.len() != "x"@.len() && "action"@.len() != "y"@.len());
        assert("action"@[0] == 'a' && "button"@[0] == 'b');
    }
    let m0 = empty_message_v(t);
    let m1 = MessageV { action: Some(a), ..m0 };
    let f0 = s.len() as nat;
    assert(f0 > 0);
    assert(p_fields(s, c0, m0, f0) == p_fields(s, c1, m1, (f0 - 1) as nat));
    // the key_code field and the closing brace
    assert(s.subrange(c1, c1 + 12) =~= ",\"key_code\":"@);
    assert(s.subrange(vy, vy + dk.len() as int) =~= dk);
    assert(s[c2] == '}');
    lemma_key_code_tail(s, c1, kc, m1, (f0 - 1) as nat);
    let m2 = MessageV { key_code: Some(kc), ..m1 };
    assert((f0 - 1) as nat > 0);
    assert(p_fields(s, c1, m1, (f0 - 1) as nat) == Some((m2, c2 + 1)));
    assert(m2 == m);
}

/// A trailing `key_code` field right before the closing brace.
#[verifier::rlimit(100)]
#[verifier::spinoff_prover]
proof fn lemma_key_code_tail(s: Seq<char>, c1: int, kc: u32, macc: MessageV, f: nat)
    requires
        0 <= c1,
        f > 0,
        c1 + 13 + crate::text::spec_digits(kc as nat).len() <= s.len(),
        s.subrange(c1, c1 + 12) == ",\"key_code\":"@,
        s.subrange(c1 + 12, c1 + 12 + crate::text::spec_digits(kc as nat).len() as int)
            == crate::text::spec_digits(kc as nat),
        s[c1 + 12 + crate::text::spec_digits(kc as nat).len() as int] == '}',
    ensures
        p_fields(s, c1, macc, f) == Some(
            (
                MessageV { key_code: Some(kc), ..macc },
                c1 + 13 + crate::text::spec_digits(kc as nat).len() as int,
            ),
        ),
{
    reveal_strlit(",\"key_code\":");
    reveal_strlit("key_code");
    reveal_strlit("x");
    reveal_strlit("y");
    reveal_strlit("button");
    reveal_strlit("action");
    let dk = crate::text::spec_digits(kc as nat);
    let vy = c1 + 12;
    let c2 = vy + dk.len() as int;
    assert(",\"key_code\":"@ =~= seq![','] + seq!['"'] + "key_code"@ + seq!['"'] + seq![':']);
    let kl = ",\"key_code\":"@;
    assert(forall|t: int| 0 <= t < 12 ==> s[c1 + t] == #[trigger] kl[t]) by {
        assert(forall|t: int| 0 <= t < 12 ==> s.subrange(c1, c1 + 12)[t] == #[trigger] kl[t]);
    }
    assert(kl[0] == ',' && kl[1] == '"' && kl[10] == '"' && kl[11] == ':');
    assert(s[c1 + 0] == kl[0] && s[c1 + 1] == kl[1] && s[c1 + 10] == kl[10] && s[c1 + 11]
        == kl[11]);
    assert(s[c1] == ',' && s[c1 + 1] == '"');
    assert forall|t: int| 0 <= t < 8 implies s.subrange(c1 + 2, c1 + 10)[t]
        == "key_code"@[t] by {
        assert(kl[2 + t] == "key_code"@[t]);
        assert(s[c1 + (2 + t)] == kl[2 + t]);
    }
    assert(s.subrange(c1 + 2, c1 + 10) =~= "key_code"@);
    assert(s[c1 + 10] == '"' && s[c1 + 11] == ':');
    assert(plain_chars("key_code"@));
    lemma_parse_key(s, c1, "key_code"@);
    assert(!is_digit(s[c2]));
    lemma_p_uint(s, vy, kc as nat);
    assert(p_u32(s, vy) == Some((kc, c2)));
    assert("key_code"@ != "x"@ && "key_code"@ != "y"@ && "key_code"@ != "button"@
        && "key_code"@ != "action"@) by {
        assert("key_code"@.len() == 8);
        assert("x"@.len() == 1 && "y"@.len() == 1 && "button"@.len() == 6
            && "action"@.len() == 6);
    }
    let m2 = MessageV { key_code: Some(kc), ..macc };
    assert(p_fields(s, c1, macc, f) == p_fields(s, c2, m2, (f - 1) as nat));
    assert(p_fields(s, c2, m2, (f - 1) as nat) == Some((m2, c2 + 1)));
}

/// The wire round trip for a single-string-payload message: a
/// `clipboard` (any text) or a `layout_sync` (any layout string) parses
/// back from its own encoding.
#[verifier::rlimit(100)]
#[verifier::spinoff_prover]
pub proof fn lemma_wire_round_trip_single_string(m: MessageV)
    requires
        plain_chars(m.msg_type),
        m.text is Some <==> m.layout is None,
        m.x is None,
        m.y is None,
        m.button is None,
        m.action is None,
        m.key_code is None,
        m.name is None,
        m.version is None,
        m.screens is None,
        m.computer_type is None,
    ensures
        spec_parse(crate::codec::spec_encode(m)) == Some(m),
{
    reveal_strlit("{\"type\":");
    reveal_strlit("}");
    reveal_strlit(",\"text\":");
    reveal_strlit(",\"layout\":");
    reveal_strlit("text");
    reveal_strlit("layout");
    reveal_strlit("x");
    reveal_strlit("y");
    reveal_strlit("button");
    reveal_strlit("action");
    reveal_strlit("key_code");
    reveal_strlit("name");
    reveal_strlit("version");
    reveal_strlit("screens");
    reveal_strlit("computer_type");
    let t = m.msg_type;
    let s = crate::codec::spec_encode(m);
    let jt = crate::codec::spec_json_string(t);
    lemma_esc_plain(t);
    assert(jt == seq!['"'] + t + seq!['"']);
    assert("{\"type\":"@.len() == 8);
    let c0 = 10 + t.len() as int;
    assert(s.subrange(0, 8) =~= "{\"type\":"@);
    assert(s[8] == '"');
    assert(s.subrange(9, 9 + t.len() as int) =~= t);
    assert(s[9 + t.len() as int] == '"');
    let f0 = s.len() as nat;
    let m0 = empty_message_v(t);
    if m.text is Some {
        let v = m.text->0;
        let jv = crate::codec::spec_json_string(v);
        assert(",\"text\":"@.len() == 8);
        assert(s =~= "{\"type\":"@ + jt + (",\"text\":"@ + jv) + "}"@);
        let vx = c0 + 8;
        let c1 = vx + jv.len() as int;
        assert(s.len() == c1 + 1);
        lemma_parse_type_prefix(s, t);
        assert(s.subrange(c0, c0 + 8) =~= ",\"text\":"@);
        assert(s.subrange(vx, vx + jv.len() as int) =~= jv);
        assert(s[c1] == '}');
        lemma_text_tail(s, c0, v, m0, f0);
        let m1 = MessageV { text: Some(v), ..m0 };
        assert(f0 > 0);
        assert(p_fields(s, c0, m0, f0) == Some((m1, c1 + 1)));
        assert(m1 == m);
    } else {
        let v = m.layout->0;
        let jv = crate::codec::spec_json_string(v);
        assert(",\"layout\":"@.len() == 10);
        assert(s =~= "{\"type\":"@ + jt + (",\"layout\":"@ + jv) + "}"@);
        let vx = c0 + 10;
        let c1 = vx + jv.len() as int;
        assert(s.len() == c1 + 1);
        lemma_parse_type_prefix(s, t);
        assert(s.subrange(c0, c0 + 10) =~= ",\"layout\":"@);
        assert(s.subrange(vx, vx + jv.len() as int) =~= jv);
        assert(s[c1] == '}');
        lemma_layout_tail(s, c0, v, m0, f0);
        let m1 = MessageV { layout: Some(v), ..m0 };
        assert(f0 > 0);
        assert(p_fields(s, c0, m0, f0) == Some((m1, c1 + 1)));
        assert(m1 == m);
    }
}

/// A trailing `text` field right before the closing brace.
#[verifier::rlimit(100)]
#[verifier::spinoff_prover]
proof fn lemma_text_tail(s: Seq<char>, c0: int, v: Seq<char>, macc: MessageV, f: nat)
    requires
        0 <= c0,
        f > 0,
        c0 + 9 + crate::codec::spec_json_string(v).len() <= s.len(),
        s.subrange(c0, c0 + 8) == ",\"text\":"@,
        s.subrange(c0 + 8, c0 + 8 + crate::codec::spec_json_string(v).len() as int)
            == crate::codec::spec_json_string(v),
        s[c0 + 8 + crate::codec::spec_json_string(v).len() as int] == '}',
    ensures
        p_fields(s, c0, macc, f) == Some(
            (
                MessageV { text: Some(v), ..macc },
                c0 + 9 + crate::codec::spec_json_string(v).len() as int,
            ),
        ),
{
    reveal_strlit(",\"text\":");
    reveal_strlit("text");
    reveal_strlit("x");
    reveal_strlit("y");
    reveal_strlit("button");
    reveal_strlit("action");
    reveal_strlit("key_code");
    let jv = crate::codec::spec_json_string(v);
    let vx = c0 + 8;
    let c1 = vx + jv.len() as int;
    let kl = ",\"text\":"@;
    assert(kl =~= seq![','] + seq!['"'] + "text"@ + seq!['"'] + seq![':']);
    assert(forall|t: int| 0 <= t < 8 ==> s[c0 + t] == #[trigger] kl[t]) by {
        assert(forall|t: int| 0 <= t < 8 ==> s.subrange(c0, c0 + 8)[t] == #[trigger] kl[t]);
    }
    assert(kl[0] == ',' && kl[1] == '"' && kl[6] == '"' && kl[7] == ':');
    assert(s[c0 + 0] == kl[0] && s[c0 + 1] == kl[1] && s[c0 + 6] == kl[6] && s[c0 + 7]
        == kl[7]);
    assert(s[c0] == ',' && s[c0 + 1] == '"');
    assert forall|t: int| 0 <= t < 4 implies s.subrange(c0 + 2, c0 + 6)[t] == "text"@[t] by {
        assert(kl[2 + t] == "text"@[t]);
        assert(s[c0 + (2 + t)] == kl[2 + t]);
    }
    assert(s.subrange(c0 + 2, c0 + 6) =~= "text"@);
    assert(s[c0 + 6] == '"' && s[c0 + 7] == ':');
    assert(plain_chars("text"@));
    lemma_parse_key(s, c0, "text"@);
    lemma_p_string(s, vx, v);
    assert("text"@ != "x"@ && "text"@ != "y"@ && "text"@ != "button"@ && "text"@
        != "action"@ && "text"@ != "key_code"@) by {
        assert("text"@.len() == 4);
        assert("x"@.len() == 1 && "y"@.len() == 1 && "button"@.len() == 6 && "action"@.len()
            == 6 && "key_code"@.len() == 8);
    }
    let m1 = MessageV { text: Some(v), ..macc };
    assert(p_fields(s, c0, macc, f) == p_fields(s, c1, m1, (f - 1) as nat));
    assert(p_fields(s, c1, m1, (f - 1) as nat) == Some((m1, c1 + 1)));
}

/// A trailing `layout` field right before the closing brace.
#[verifier::rlimit(100)]
#[verifier::spinoff_prover]
proof fn lemma_layout_tail(s: Seq<char>, c0: int, v: Seq<char>, macc: MessageV, f: nat)
    requires
        0 <= c0,
        f > 0,
        c0 + 11 + crate::codec::spec_json_string(v).len() <= s.len(),
        s.subrange(c0, c0 + 10) == ",\"layout\":"@,
        s.subrange(c0 + 10, c0 + 10 + crate::codec::spec_json_string(v).len() as int)
            == crate::codec::spec_json_string(v),
        s[c0 + 10 + crate::codec::spec_json_string(v).len() as int] == '}',
    ensures
        p_fields(s, c0, macc, f) == Some(
            (
                MessageV { layout: Some(v), ..macc },
                c0 + 11 + crate::codec::spec_json_string(v).len() as int,
            ),
        ),
{
    reveal_strlit(",\"layout\":");
    reveal_strlit("layout");
    reveal_strlit("x");
    reveal_strlit("y");
    reveal_strlit("button");
    reveal_strlit("action");
    reveal_strlit("key_code");
    reveal_strlit("text");
    reveal_strlit("name");
    reveal_strlit("version");
    reveal_strlit("screens");
    reveal_strlit("computer_type");
    let jv = crate::codec::spec_json_string(v);
    let vx = c0 + 10;
    let c1 = vx + jv.len() as int;
    let kl = ",\"layout\":"@;
    assert(kl =~= seq![','] + seq!['"'] + "layout"@ + seq!['"'] + seq![':']);
    assert(forall|t: int| 0 <= t < 10 ==> s[c0 + t] == #[trigger] kl[t]) by {
        assert(forall|t: int| 0 <= t < 10 ==> s.subrange(c0, c0 + 10)[t] == #[trigger] kl[t]);
    }
    assert(kl[0] == ',' && kl[1] == '"' && kl[8] == '"' && kl[9] == ':');
    assert(s[c0 + 0] == kl[0] && s[c0 + 1] == kl[1] && s[c0 + 8] == kl[8] && s[c0 + 9]
        == kl[9]);
    assert(s[c0] == ',' && s[c0 + 1] == '"');
    assert forall|t: int| 0 <= t < 6 implies s.subrange(c0 + 2, c0 + 8)[t]
        == "layout"@[t] by {
        assert(kl[2 + t] == "layout"@[t]);
        assert(s[c0 + (2 + t)] == kl[2 + t]);
    }
    assert(s.subrange(c0 + 2, c0 + 8) =~= "layout"@);
    assert(s[c0 + 8] == '"' && s[c0 + 9] == ':');
    assert(plain_chars("layout"@));
    lemma_parse_key(s, c0, "layout"@);
    lemma_p_string(s, vx, v);
    assert("layout"@ != "x"@ && "layout"@ != "y"@ && "layout"@ != "button"@ && "layout"@
        != "action"@ && "layout"@ != "key_code"@ && "layout"@ != "text"@ && "layout"@
        != "name"@ && "layout"@ != "version"@ && "layout"@ != "screens"@ && "layout"@
        != "computer_type"@) by {
        assert("layout"@.len() == 6);
        assert("x"@.len() == 1 && "y"@.len() == 1 && "key_code"@.len() == 8 && "text"@.len()
            == 4 && "name"@.len() == 4 && "version"@.len() == 7 && "screens"@.len() == 7
            && "computer_type"@.len() == 13);
        assert("layout"@[0] == 'l' && "button"@[0] == 'b' && "action"@[0] == 'a');
    }
    let m1 = MessageV { layout: Some(v), ..macc };
    assert(p_fields(s, c0, macc, f) == p_fields(s, c1, m1, (f - 1) as nat));
    assert(p_fields(s, c1, m1, (f - 1) as nat) == Some((m1, c1 + 1)));
}

/// The wire round trip for a bare `hello`: one carrying any name and
/// version strings but no display inventory parses back from its own
/// encoding.
#[verifier::rlimit(100)]
#[verifier::spinoff_prover]
pub proof fn lemma_wire_round_trip_bare_hello(m: MessageV)
    requires
        plain_chars(m.msg_type),
        m.name is Some,
        m.version is Some,
        m.x is None,
        m.y is None,
        m.button is None,
        m.action is None,
        m.key_code is None,
        m.text is None,
        m.screens is None,
        m.computer_type is None,
        m.layout is None,
    ensures
        spec_parse(crate::codec::spec_encode(m)) == Some(m),
{
    reveal_strlit("{\"type\":");
    reveal_strlit("}");
    reveal_strlit(",\"name\":");
    reveal_strlit(",\"version\":");
    reveal_strlit("name");
    reveal_strlit("x");
    reveal_strlit("y");
    reveal_strlit("button");
    reveal_strlit("action");
    reveal_strlit("key_code");
    reveal_strlit("text");
    let t = m.msg_type;
    let b = m.name->0;
    let a = m.version->0;
    let s = crate::codec::spec_encode(m);
    let jt = crate::codec::spec_json_string(t);
    let jb = crate::codec::spec_json_string(b);
    let ja = crate::codec::spec_json_string(a);
    lemma_esc_plain(t);
    assert(jt == seq!['"'] + t + seq!['"']);
    assert("{\"type\":"@.len() == 8);
    assert(",\"name\":"@.len() == 8);
    assert(",\"version\":"@.len() == 11);
    assert(s =~= "{\"type\":"@ + jt + (",\"name\":"@ + jb) + (",\"version\":"@ + ja) + "}"@);
    let c0 = 10 + t.len() as int;
    let vx = c0 + 8;
    let c1 = vx + jb.len() as int;
    let vy = c1 + 11;
    let c2 = vy + ja.len() as int;
    assert(s.len() == c2 + 1);
    assert(s.subrange(0, 8) =~= "{\"type\":"@);
    assert(s[8] == '"');
    assert(s.subrange(9, 9 + t.len() as int) =~= t);
    assert(s[9 + t.len() as int] == '"');
    lemma_parse_type_prefix(s, t);
    // the name field
    assert(",\"name\":"@ =~= seq![','] + seq!['"'] + "name"@ + seq!['"'] + seq![':']);
    assert(s.subrange(c0, c0 + 8) =~= ",\"name\":"@);
    assert(s[c0] == ',' && s[c0 + 1] == '"');
    assert(s.subrange(c0 + 2, c0 + 6) =~= "name"@);
    assert(s[c0 + 6] == '"' && s[c0 + 7] == ':');
    assert(plain_chars("name"@));
    lemma_parse_key(s, c0, "name"@);
    assert(s.subrange(vx, vx + jb.len() as int) =~= jb);
    lemma_p_string(s, vx, b);
    assert("name"@ != "x"@ && "name"@ != "y"@ && "name"@ != "button"@ && "name"@ != "action"@
        && "name"@ != "key_code"@ && "name"@ != "text"@) by {
        assert("name"@.len() == 4);
        assert("x"@.len() == 1 && "y"@.len() == 1 && "button"@.len() == 6 && "action"@.len()
            == 6 && "key_code"@.len() == 8);
        assert("name"@[0] == 'n' && "text"@[0] == 't');
    }
    let m0 = empty_message_v(t);
    let m1 = MessageV { name: Some(b), ..m0 };
    let f0 = s.len() as nat;
    assert(f0 > 0);
    assert(p_fields(s, c0, m0, f0) == p_fields(s, c1, m1, (f0 - 1) as nat));
    // the version field and the closing brace
    assert(s.subrange(c1, c1 + 11) =~= ",\"version\":"@);
    assert(s.subrange(vy, vy + ja.len() as int) =~= ja);
    assert(s[c2] == '}');
    lemma_version_tail(s, c1, a, m1, (f0 - 1) as nat);
    let m2 = MessageV { version: Some(a), ..m1 };
    assert((f0 - 1) as nat > 0);
    assert(p_fields(s, c1, m1, (f0 - 1) as nat) == Some((m2, c2 + 1)));
    assert(m2 == m);
}

/// A trailing `version` field right before the closing brace.
#[verifier::rlimit(100)]
#[verifier::spinoff_prover]
proof fn lemma_version_tail(s: Seq<char>, c1: int, a: Seq<char>, macc: MessageV, f: nat)
    requires
        0 <= c1,
        f > 0,
        c1 + 12 + crate::codec::spec_json_string(a).len() <= s.len(),
        s.subrange(c1, c1 + 11) == ",\"version\":"@,
        s.subrange(c1 + 11, c1 + 11 + crate::codec::spec_json_string(a).len() as int)
            == crate::codec::spec_json_string(a),
        s[c1 + 11 + crate::codec::spec_json_string(a).len() as int] == '}',
    ensures
        p_fields(s, c1, macc, f) == Some(
            (
                MessageV { version: Some(a), ..macc },
                c1 + 12 + crate::codec::spec_json_string(a).len() as int,
            ),
        ),
{
    reveal_strlit(",\"version\":");
    reveal_strlit("version");
    reveal_strlit("x");
    reveal_strlit("y");
    reveal_strlit("button");
    reveal_strlit("action");
    reveal_strlit("key_code");
    reveal_strlit("text");
    reveal_strlit("name");
    let ja = crate::codec::spec_json_string(a);
    let vy = c1 + 11;
    let c2 = vy + ja.len() as int;
    let kl = ",\"version\":"@;
    assert(kl =~= seq![','] + seq!['"'] + "version"@ + seq!['"'] + seq![':']);
    assert(forall|t: int| 0 <= t < 11 ==> s[c1 + t] == #[trigger] kl[t]) by {
        assert(forall|t: int| 0 <= t < 11 ==> s.subrange(c1, c1 + 11)[t] == #[trigger] kl[t]);
    }
    assert(kl[0] == ',' && kl[1] == '"' && kl[9] == '"' && kl[10] == ':');
    assert(s[c1 + 0] == kl[0] && s[c1 + 1] == kl[1] && s[c1 + 9] == kl[9] && s[c1 + 10]
        == kl[10]);
    assert(s[c1] == ',' && s[c1 + 1] == '"');
    assert forall|t: int| 0 <= t < 7 implies s.subrange(c1 + 2, c1 + 9)[t]
        == "version"@[t] by {
        assert(kl[2 + t] == "version"@[t]);
        assert(s[c1 + (2 + t)] == kl[2 + t]);
    }
    assert(s.subrange(c1 + 2, c1 + 9) =~= "version"@);
    assert(s[c1 + 9] == '"' && s[c1 + 10] == ':');
    assert(plain_chars("version"@));
    lemma_parse_key(s, c1, "version"@);
    lemma_p_string(s, vy, a);
    assert("version"@ != "x"@ && "version"@ != "y"@ && "version"@ != "button"@ && "version"@
        != "action"@ && "version"@ != "key_code"@ && "version"@ != "text"@ && "version"@
        != "name"@) by {
        assert("version"@.len() == 7);
        assert("x"@.len() == 1 && "y"@.len() == 1 && "button"@.len() == 6 && "action"@.len()
            == 6 && "key_code"@.len() == 8 && "text"@.len() == 4 && "name"@.len() == 4);
    }
    let m2 = MessageV { version: Some(a), ..macc };
    assert(p_fields(s, c1, macc, f) == p_fields(s, c2, m2, (f - 1) as nat));
    assert(p_fields(s, c2, m2, (f - 1) as nat) == Some((m2, c2 + 1)));
}

fn char_of_code(v: u32) -> (c: char)
    requires
        v < 0x20,
    ensures
        c as u32 == v,
{
    if v == 0 {
        '\u{0}'
    } else if v == 1 {
        '\u{1}'
    } else if v == 2 {
        '\u{2}'
    } else if v == 3 {
        '\u{3}'
    } else if v == 4 {
        '\u{4}'
    } else if v == 5 {
        '\u{5}'
    } else if v == 6 {
        '\u{6}'
    } else if v == 7 {
        '\u{7}'
    } else if v == 8 {
        '\u{8}'
    } else if v == 9 {
        '\u{9}'
    } else if v == 10 {
        '\u{a}'
    } else if v == 11 {
        '\u{b}'
    } else if v == 12 {
        '\u{c}'
    } else if v == 13 {
        '\u{d}'
    } else if v == 14 {
        '\u{e}'
    } else if v == 15 {
        '\u{f}'
    } else if v == 16 {
        '\u{10}'
    } else if v == 17 {
        '\u{11}'
    } else if v == 18 {
        '\u{12}'
    } else if v == 19 {
        '\u{13}'
    } else if v == 20 {
        '\u{14}'
    } else if v == 21 {
        '\u{15}'
    } else if v == 22 {
        '\u{16}'
    } else if v == 23 {
        '\u{17}'
    } else if v == 24 {
        '\u{18}'
    } else if v == 25 {
        '\u{19}'
    } else if v == 26 {
        '\u{1a}'
    } else if v == 27 {
        '\u{1b}'
    } else if v == 28 {
        '\u{1c}'
    } else if v == 29 {
        '\u{1d}'
    } else if v == 30 {
        '\u{1e}'
    } else {
        '\u{1f}'
    }
}

fn hex_digit_of(c: char) -> (r: Option<u32>)
    ensures
        r is Some <==> is_hex(c),
        r matches Some(v) ==> v as int == hex_val(c) && v < 16,
{
    let u = c as u32;
    if 48 <= u && u <= 57 {
        Some(u - 48)
    } else if 97 <= u && u <= 102 {
        Some(u - 87)
    } else {
        None
    }
}

fn e_lit(s: &Vec<char>, i: usize, lit: &str) -> (r: Option<usize>)
    requires
        i <= s@.len(),
    ensures
        match r {
            Some(j) => p_lit(s@, i as int, lit@) == Some(j as int) && i <= j <= s@.len(),
            None => p_lit(s@, i as int, lit@) is None,
        },
{
    let n = lit.unicode_len();
    let sl = s.len();
    proof {
        assert(lit@.subrange(0, n as int) =~= lit@);
    }
    let mut k: usize = 0;
    while k < n
        invariant
            0 <= k <= n,
            n as nat == lit@.len(),
            sl == s@.len(),
            i <= sl,
            i + k <= sl,
            p_lit(s@, i as int, lit@) == p_lit(s@, i + k, lit@.subrange(k as int, n as int)),
        decreases n - k,
    {
        if k >= sl - i {
            return None;
        }
        if s[i + k] != lit.get_char(k) {
            return None;
        }
        proof {
            let sub = lit@.subrange(k as int, n as int);
            assert(sub[0] == lit@[k as int]);
            assert(sub.drop_first() =~= lit@.subrange(k + 1, n as int));
        }
        k = k + 1;
    }
    proof {
        assert(lit@.subrange(n as int, n as int) =~= Seq::<char>::empty());
    }
    Some(i + n)
}

fn e_chars(s: &Vec<char>, i: usize) -> (r: Option<(Vec<char>, usize)>)
    requires
        i <= s@.len(),
    ensures
        match r {
            Some(p) => p_chars(s@, i as int) == Some((p.0@, p.1 as int)) && i <= p.1 <= s@.len(),
            None => p_chars(s@, i as int) is None,
        },
    decreases s@.len() - i,
{
    if i >= s.len() {
        return None;
    }
    let c = s[i];
    if c == '"' {
        let v: Vec<char> = Vec::new();
        proof {
            assert(v@ =~= Seq::<char>::empty());
        }
        return Some((v, i + 1));
    }
    let (dc, ni): (char, usize) = if c == '\\' {
        if s.len() - i <= 1 {
            return None;
        }
        let e = s[i + 1];
        if e == '"' || e == '\\' || e == '/' {
            (e, i + 2)
        } else if e == 'b' {
            ('\u{8}', i + 2)
        } else if e == 't' {
            ('\u{9}', i + 2)
        } else if e == 'n' {
            ('\u{a}', i + 2)
        } else if e == 'f' {
            ('\u{c}', i + 2)
        } else if e == 'r' {
            ('\u{d}', i + 2)
        } else if e == 'u' {
            if s.len() - i <= 5 {
                return None;
            }
            if s[i + 2] != '0' || s[i + 3] != '0' {
                return None;
            }
            let h1 = match hex_digit_of(s[i + 4]) {
                Some(v) => v,
                None => {
                    return None;
                },
            };
            let h2 = match hex_digit_of(s[i + 5]) {
                Some(v) => v,
                None => {
                    return None;
                },
            };
            let v = h1 * 16 + h2;
            if v >= 0x20 {
                return None;
            }
            (char_of_code(v), i + 6)
        } else {
            return None;
        }
    } else if (c as u32) >= 0x20 {
        (c, i + 1)
    } else {
        return None;
    };
    match e_chars(s, ni) {
        Some((mut v, j)) => {
            let ghost tail = v@;
            v.insert(0, dc);
            proof {
                assert(v@ =~= seq![dc] + tail);
            }
            Some((v, j))
        },
        None => None,
    }
}

fn e_string(s: &Vec<char>, i: usize) -> (r: Option<(Vec<char>, usize)>)
    requires
        i <= s@.len(),
    ensures
        match r {
            Some(p) => p_string(s@, i as int) == Some((p.0@, p.1 as int)) && i <= p.1
                <= s@.len(),
            None => p_string(s@, i as int) is None,
        },
{
    if i < s.len() && s[i] == '"' {
        e_chars(s, i + 1)
    } else {
        None
    }
}

fn e_digits(s: &Vec<char>, i: usize, acc: u64) -> (r: Option<(u64, usize)>)
    requires
        i <= s@.len(),
        acc <= 0xFFFF_FFFF,
    ensures
        match r {
            Some(p) => p_digits(s@, i as int, acc as int) == Some((p.0 as int, p.1 as int))
                && p.0 <= 0xFFFF_FFFF && i <= p.1 <= s@.len(),
            None => p_digits(s@, i as int, acc as int) is None,
        },
    decreases s@.len() - i,
{
    if i < s.len() && (s[i] as u32) >= 48 && (s[i] as u32) <= 57 {
        let d = (s[i] as u32) - 48;
        let a2 = acc * 10 + d as u64;
        if a2 > 0xFFFF_FFFF {
            None
        } else {
            e_digits(s, i + 1, a2)
        }
    } else {
        Some((acc, i))
    }
}

fn e_uint(s: &Vec<char>, i: usize) -> (r: Option<(u64, usize)>)
    requires
        i <= s@.len(),
    ensures
        match r {
            Some(p) => p_uint(s@, i as int) == Some((p.0 as int, p.1 as int)) && p.0
                <= 0xFFFF_FFFF && i <= p.1 <= s@.len(),
            None => p_uint(s@, i as int) is None,
        },
{
    if i < s.len() && (s[i] as u32) >= 48 && (s[i] as u32) <= 57 {
        if s[i] == '0' {
            Some((0, i + 1))
        } else {
            e_digits(s, i, 0)
        }
    } else {
        None
    }
}

fn e_int(s: &Vec<char>, i: usize) -> (r: Option<(i64, usize)>)
    requires
        i <= s@.len(),
    ensures
        match r {
            Some(p) => p_int(s@, i as int) == Some((p.0 as int, p.1 as int)) && i <= p.1
                <= s@.len(),
            None => p_int(s@, i as int) is None,
        },
{
    if i < s.len() && s[i] == '-' {
        match e_uint(s, i + 1) {
            Some((v, j)) => Some((-(v as i64), j)),
            None => None,
        }
    } else {
        match e_uint(s, i) {
            Some((v, j)) => Some((v as i64, j)),
            None => None,
        }
    }
}

fn e_i32(s: &Vec<char>, i: usize) -> (r: Option<(i32, usize)>)
    requires
        i <= s@.len(),
    ensures
        match r {
            Some(p) => p_i32(s@, i as int) == Some((p.0, p.1 as int)) && i <= p.1 <= s@.len(),
            None => p_i32(s@, i as int) is None,
        },
{
    match e_int(s, i) {
        Some((v, j)) => {
            if i32::MIN as i64 <= v && v <= i32::MAX as i64 {
                Some((v as i32, j))
            } else {
                None
            }
        },
        None => None,
    }
}

fn e_u32(s: &Vec<char>, i: usize) -> (r: Option<(u32, usize)>)
    requires
        i <= s@.len(),
    ensures
        match r {
            Some(p) => p_u32(s@, i as int) == Some((p.0, p.1 as int)) && i <= p.1 <= s@.len(),
            None => p_u32(s@, i as int) is None,
        },
{
    match e_uint(s, i) {
        Some((v, j)) => Some((v as u32, j)),
        None => None,
    }
}

fn e_bool(s: &Vec<char>, i: usize) -> (r: Option<(bool, usize)>)
    requires
        i <= s@.len(),
    ensures
        match r {
            Some(p) => p_bool(s@, i as int) == Some((p.0, p.1 as int)) && i <= p.1 <= s@.len(),
            None => p_bool(s@, i as int) is None,
        },
{
    match e_lit(s, i, "true") {
        Some(j) => Some((true, j)),
        None => match e_lit(s, i, "false") {
            Some(j) => Some((false, j)),
            None => None,
        },
    }
}

fn e_screen(s: &Vec<char>, i: usize) -> (r: Option<(ScreenData, usize)>)
    requires
        i <= s@.len(),
    ensures
        match r {
            Some(p) => p_screen(s@, i as int) == Some((p.0@, p.1 as int)) && i <= p.1
                <= s@.len(),
            None => p_screen(s@, i as int) is None,
        },
{
    let i1 = match e_lit(s, i, "{\"name\":") {
        Some(j) => j,
        None => {
            return None;
        },
    };
    let (name, i2) = match e_string(s, i1) {
        Some(p) => p,
        None => {
            return None;
        },
    };
    let i3 = match e_lit(s, i2, ",\"x\":") {
        Some(j) => j,
        None => {
            return None;
        },
    };
    let (x, i4) = match e_i32(s, i3) {
        Some(p) => p,
        None => {
            return None;
        },
    };
    let i5 = match e_lit(s, i4, ",\"y\":") {
        Some(j) => j,
        None => {
            return None;
        },
    };
    let (y, i6) = match e_i32(s, i5) {
        Some(p) => p,
        None => {
            return None;
        },
    };
    let i7 = match e_lit(s, i6, ",\"width\":") {
        Some(j) => j,
        None => {
            return None;
        },
    };
    let (w, i8) = match e_i32(s, i7) {
        Some(p) => p,
        None => {
            return None;
        },
    };
    let i9 = match e_lit(s, i8, ",\"height\":") {
        Some(j) => j,
        None => {
            return None;
        },
    };
    let (h, i10) = match e_i32(s, i9) {
        Some(p) => p,
        None => {
            return None;
        },
    };
    let i11 = match e_lit(s, i10, ",\"is_primary\":") {
        Some(j) => j,
        None => {
            return None;
        },
    };
    let (p, i12) = match e_bool(s, i11) {
        Some(p) => p,
        None => {
            return None;
        },
    };
    let i13 = match e_lit(s, i12, "}") {
        Some(j) => j,
        None => {
            return None;
        },
    };
    let sd = ScreenData {
        name: chars_to_string(&name),
        x,
        y,
        width: w,
        height: h,
        is_primary: p,
    };
    Some((sd, i13))
}

fn e_screens_rest(s: &Vec<char>, i: usize, acc: Vec<ScreenData>, fuel: usize) -> (r: Option<
    (Vec<ScreenData>, usize),
>)
    requires
        i <= s@.len(),
    ensures
        match r {
            Some(p) => p_screens_rest(s@, i as int, screens_v(acc@), fuel as nat) == Some(
                (screens_v(p.0@), p.1 as int),
            ) && i <= p.1 <= s@.len(),
            None => p_screens_rest(s@, i as int, screens_v(acc@), fuel as nat) is None,
        },
    decreases fuel,
{
    if i >= s.len() {
        return None;
    }
    if s[i] == ']' {
        return Some((acc, i + 1));
    }
    if s[i] == ',' && fuel > 0 {
        match e_screen(s, i + 1) {
            Some((sc, j)) => {
                let mut acc2 = acc;
                let ghost prev = acc2@;
                acc2.push(sc);
                proof {
                    assert(screens_v(acc2@) =~= screens_v(prev).push(sc@));
                }
                e_screens_rest(s, j, acc2, fuel - 1)
            },
            None => None,
        }
    } else {
        None
    }
}

/// The models of a display list.
pub open spec fn screens_v(ss: Seq<ScreenData>) -> Seq<ScreenV> {
    ss.map_values(|sd: ScreenData| sd@)
}

fn e_screens(s: &Vec<char>, i: usize) -> (r: Option<(Vec<ScreenData>, usize)>)
    requires
        i <= s@.len(),
    ensures
        match r {
            Some(p) => p_screens(s@, i as int) == Some((screens_v(p.0@), p.1 as int)) && i
                <= p.1 <= s@.len(),
            None => p_screens(s@, i as int) is None,
        },
{
    if i < s.len() && s[i] == '[' {
        if i + 1 < s.len() && s[i + 1] == ']' {
            let v: Vec<ScreenData> = Vec::new();
            proof {
                assert(screens_v(v@) =~= Seq::<ScreenV>::empty());
            }
            return Some((v, i + 2));
        }
        match e_screen(s, i + 1) {
            Some((sc, j)) => {
                let mut acc: Vec<ScreenData> = Vec::new();
                acc.push(sc);
                proof {
                    assert(screens_v(acc@) =~= seq![sc@]);
                }
                e_screens_rest(s, j, acc, s.len())
            },
            None => None,
        }
    } else {
        None
    }
}

fn e_skip_scalar(s: &Vec<char>, i: usize) -> (r: Option<usize>)
    requires
        i <= s@.len(),
    ensures
        match r {
            Some(j) => p_skip_scalar(s@, i as int) == Some(j as int) && i <= j <= s@.len(),
            None => p_skip_scalar(s@, i as int) is None,
        },
{
    match e_string(s, i) {
        Some((_v, j)) => Some(j),
        None => match e_int(s, i) {
            Some((_v, j)) => Some(j),
            None => match e_bool(s, i) {
                Some((_v, j)) => Some(j),
                None => match e_lit(s, i, "null") {
                    Some(j) => Some(j),
                    None => None,
                },
            },
        },
    }
}

fn e_skip_value_rec(s: &Vec<char>, i: usize, fuel: usize) -> (r: Option<usize>)
    requires
        i <= s@.len(),
    ensures
        match r {
            Some(j) => p_skip_value_rec(s@, i as int, fuel as nat) == Some(j as int) && i <= j
                <= s@.len(),
            None => p_skip_value_rec(s@, i as int, fuel as nat) is None,
        },
    decreases fuel,
{
    match e_skip_scalar(s, i) {
        Some(j) => Some(j),
        None => {
            if fuel == 0 || i >= s.len() {
                None
            } else if s[i] == '{' {
                e_skip_members(s, i + 1, fuel - 1)
            } else if s[i] == '[' {
                e_skip_elems(s, i + 1, fuel - 1)
            } else {
                None
            }
        },
    }
}

fn e_skip_members(s: &Vec<char>, i: usize, fuel: usize) -> (r: Option<usize>)
    requires
        i <= s@.len(),
    ensures
        match r {
            Some(j) => p_skip_members(s@, i as int, fuel as nat) == Some(j as int) && i <= j
                <= s@.len(),
            None => p_skip_members(s@, i as int, fuel as nat) is None,
        },
    decreases fuel,
{
    if fuel == 0 || i >= s.len() {
        None
    } else if s[i] == '}' {
        Some(i + 1)
    } else {
        match e_string(s, i) {
            Some((_k, j)) => {
                if j < s.len() && s[j] == ':' {
                    match e_skip_value_rec(s, j + 1, fuel - 1) {
                        Some(v) => e_skip_more_members(s, v, fuel - 1),
                        None => None,
                    }
                } else {
                    None
                }
            },
            None => None,
        }
    }
}

fn e_skip_more_members(s: &Vec<char>, i: usize, fuel: usize) -> (r: Option<usize>)
    requires
        i <= s@.len(),
    ensures
        match r {
            Some(j) => p_skip_more_members(s@, i as int, fuel as nat) == Some(j as int) && i
                <= j <= s@.len(),
            None => p_skip_more_members(s@, i as int, fuel as nat) is None,
        },
    decreases fuel,
{
    if fuel == 0 || i >= s.len() {
        None
    } else if s[i] == '}' {
        Some(i + 1)
    } else if s[i] == ',' {
        match e_string(s, i + 1) {
            Some((_k, j)) => {
                if j < s.len() && s[j] == ':' {
                    match e_skip_value_rec(s, j + 1, fuel - 1) {
                        Some(v) => e_skip_more_members(s, v, fuel - 1),
                        None => None,
                    }
                } else {
                    None
                }
            },
            None => None,
        }
    } else {
        None
    }
}

fn e_skip_elems(s: &Vec<char>, i: usize, fuel: usize) -> (r: Option<usize>)
    requires
        i <= s@.len(),
    ensures
        match r {
            Some(j) => p_skip_elems(s@, i as int, fuel as nat) == Some(j as int) && i <= j
                <= s@.len(),
            None => p_skip_elems(s@, i as int, fuel as nat) is None,
        },
    decreases fuel,
{
    if fuel == 0 || i >= s.len() {
        None
    } else if s[i] == ']' {
        Some(i + 1)
    } else {
        match e_skip_value_rec(s, i, fuel - 1) {
            Some(v) => e_skip_more_elems(s, v, fuel - 1),
            None => None,
        }
    }
}

fn e_skip_more_elems(s: &Vec<char>, i: usize, fuel: usize) -> (r: Option<usize>)
    requires
        i <= s@.len(),
    ensures
        match r {
            Some(j) => p_skip_more_elems(s@, i as int, fuel as nat) == Some(j as int) && i
                <= j <= s@.len(),
            None => p_skip_more_elems(s@, i as int, fuel as nat) is None,
        },
    decreases fuel,
{
    if fuel == 0 || i >= s.len() {
        None
    } else if s[i] == ']' {
        Some(i + 1)
    } else if s[i] == ',' {
        match e_skip_value_rec(s, i + 1, fuel - 1) {
            Some(v) => e_skip_more_elems(s, v, fuel - 1),
            None => None,
        }
    } else {
        None
    }
}

fn e_skip_value(s: &Vec<char>, i: usize) -> (r: Option<usize>)
    requires
        i <= s@.len(),
    ensures
        match r {
            Some(j) => p_skip_value(s@, i as int) == Some(j as int) && i <= j <= s@.len(),
            None => p_skip_value(s@, i as int) is None,
        },
{
    e_skip_value_rec(s, i, s.len())
}

fn e_fields(s: &Vec<char>, i: usize, m: Message, fuel: usize) -> (r: Option<(Message, usize)>)
    requires
        i <= s@.len(),
    ensures
        match r {
            Some(p) => p_fields(s@, i as int, m@, fuel as nat) == Some((p.0@, p.1 as int))
                && i <= p.1 <= s@.len(),
            None => p_fields(s@, i as int, m@, fuel as nat) is None,
        },
    decreases fuel,
{
    if i >= s.len() {
        return None;
    }
    if s[i] == '}' {
        return Some((m, i + 1));
    }
    if !(s[i] == ',' && fuel > 0) {
        return None;
    }
    let (key, j) = match e_string(s, i + 1) {
        Some(p) => p,
        None => {
            return None;
        },
    };
    if !(j < s.len() && s[j] == ':') {
        return None;
    }
    let k = j + 1;
    let mut m = m;
    if chars_eq_str(&key, "x") {
        match e_i32(s, k) {
            Some((v, j2)) => {
                m.x = Some(v);
                e_fields(s, j2, m, fuel - 1)
            },
            None => None,
        }
    } else if chars_eq_str(&key, "y") {
        match e_i32(s, k) {
            Some((v, j2)) => {
                m.y = Some(v);
                e_fields(s, j2, m, fuel - 1)
            },
            None => None,
        }
    } else if chars_eq_str(&key, "button") {
        match e_string(s, k) {
            Some((v, j2)) => {
                m.button = Some(chars_to_string(&v));
                e_fields(s, j2, m, fuel - 1)
            },
            None => None,
        }
    } else if chars_eq_str(&key, "action") {
        match e_string(s, k) {
            Some((v, j2)) => {
                m.action = Some(chars_to_string(&v));
                e_fields(s, j2, m, fuel - 1)
            },
            None => None,
        }
    } else if chars_eq_str(&key, "key_code") {
        match e_u32(s, k) {
            Some((v, j2)) => {
                m.key_code = Some(v);
                e_fields(s, j2, m, fuel - 1)
            },
            None => None,
        }
    } else if chars_eq_str(&key, "text") {
        match e_string(s, k) {
            Some((v, j2)) => {
                m.text = Some(chars_to_string(&v));
                e_fields(s, j2, m, fuel - 1)
            },
            None => None,
        }
    } else if chars_eq_str(&key, "name") {
        match e_string(s, k) {
            Some((v, j2)) => {
                m.name = Some(chars_to_string(&v));
                e_fields(s, j2, m, fuel - 1)
            },
            None => None,
        }
    } else if chars_eq_str(&key, "version") {
        match e_string(s, k) {
            Some((v, j2)) => {
                m.version = Some(chars_to_string(&v));
                e_fields(s, j2, m, fuel - 1)
            },
            None => None,
        }
    } else if chars_eq_str(&key, "screens") {
        match e_screens(s, k) {
            Some((v, j2)) => {
                m.screens = Some(v);
                e_fields(s, j2, m, fuel - 1)
            },
            None => None,
        }
    } else if chars_eq_str(&key, "computer_type") {
        match e_string(s, k) {
            Some((v, j2)) => {
                m.computer_type = Some(chars_to_string(&v));
                e_fields(s, j2, m, fuel - 1)
            },
            None => None,
        }
    } else if chars_eq_str(&key, "layout") {
        match e_string(s, k) {
            Some((v, j2)) => {
                m.layout = Some(chars_to_string(&v));
                e_fields(s, j2, m, fuel - 1)
            },
            None => None,
        }
    } else {
        match e_skip_value(s, k) {
            Some(j2) => e_fields(s, j2, m, fuel - 1),
            None => None,
        }
    }
}

/// Decodes one wire line into a message, or nothing when the line is
/// malformed.
pub fn parse_message(line: &str) -> (r: Option<Message>)
    ensures
        (r is Some) == (spec_parse(line@) is Some),
        r matches Some(m) ==> spec_parse(line@) == Some(m@),
{
    let s = str_chars(line);
    let i = match e_lit(&s, 0, "{\"type\":") {
        Some(j) => j,
        None => {
            return None;
        },
    };
    let (t, j) = match e_string(&s, i) {
        Some(p) => p,
        None => {
            return None;
        },
    };
    let m0 = Message {
        msg_type: chars_to_string(&t),
        x: None,
        y: None,
        button: None,
        action: None,
        key_code: None,
        text: None,
        name: None,
        version: None,
        screens: None,
        computer_type: None,
        layout: None,
    };
    proof {
        assert(m0@ == empty_message_v(t@));
    }
    match e_fields(&s, j, m0, s.len()) {
        Some((m, k)) => {
            if k == s.len() {
                Some(m)
            } else {
                None
            }
        },
        None => None,
    }
}

} // verus!
