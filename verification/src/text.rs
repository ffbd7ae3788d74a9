//! Decimal rendering of the integers that appear on the wire and in the
//! debug snapshot.

use vstd::prelude::*;

verus! {

/// Relies on `String::from_iter` (via `Iterator::collect`): collecting
/// chars yields the string of exactly those chars in order.
#[verifier::external_body]
pub fn chars_to_string(v: &Vec<char>) -> (s: String)
    ensures
        s@ == v@,
{
    v.iter().collect()
}

/// The chars of `s`, in order.
pub fn str_chars(s: &str) -> (v: Vec<char>)
    ensures
        v@ == s@,
{
    let n = s.unicode_len();
    let mut v: Vec<char> = Vec::new();
    let mut i: usize = 0;
    while i < n
        invariant
            0 <= i <= n,
            n as nat == s@.len(),
            v@ == s@.subrange(0, i as int),
        decreases n - i,
    {
        v.push(s.get_char(i));
        i = i + 1;
        proof {
            assert(v@ =~= s@.subrange(0, i as int));
        }
    }
    proof {
        assert(s@.subrange(0, s@.len() as int) =~= s@);
    }
    v
}

/// The decimal digits of `n`, most significant first.
pub open spec fn spec_digits(n: nat) -> Seq<char>
    decreases n,
{
    if n < 10 {
        seq![spec_digit_char((n % 10) as nat)]
    } else {
        spec_digits(n / 10) + seq![spec_digit_char((n % 10) as nat)]
    }
}

/// The character of one decimal digit.
pub open spec fn spec_digit_char(d: nat) -> char {
    if d == 0 {
        '0'
    } else if d == 1 {
        '1'
    } else if d == 2 {
        '2'
    } else if d == 3 {
        '3'
    } else if d == 4 {
        '4'
    } else if d == 5 {
        '5'
    } else if d == 6 {
        '6'
    } else if d == 7 {
        '7'
    } else if d == 8 {
        '8'
    } else {
        '9'
    }
}

/// The decimal rendering of a possibly negative integer.
pub open spec fn spec_int_chars(n: int) -> Seq<char> {
    if n < 0 {
        seq!['-'] + spec_digits((-n) as nat)
    } else {
        spec_digits(n as nat)
    }
}

fn digit_char(d: u64) -> (c: char)
    requires
        d < 10,
    ensures
        c == spec_digit_char(d as nat),
{
    if d == 0 {
        '0'
    } else if d == 1 {
        '1'
    } else if d == 2 {
        '2'
    } else if d == 3 {
        '3'
    } else if d == 4 {
        '4'
    } else if d == 5 {
        '5'
    } else if d == 6 {
        '6'
    } else if d == 7 {
        '7'
    } else if d == 8 {
        '8'
    } else {
        '9'
    }
}

/// The decimal digits of `n`, as chars, most significant first.
pub fn u64_chars(n: u64) -> (v: Vec<char>)
    ensures
        v@ == spec_digits(n as nat),
    decreases n,
{
    let mut v: Vec<char> = Vec::new();
    if n < 10 {
        v.push(digit_char(n));
        return v;
    }
    let mut v = u64_chars(n / 10);
    v.push(digit_char(n % 10));
    proof {
        assert(v@ =~= spec_digits((n / 10) as nat) + seq![spec_digit_char((n % 10) as nat)]);
    }
    v
}

/// The decimal chars of a possibly negative 64-bit value.
pub fn i64_chars(n: i64) -> (v: Vec<char>)
    requires
        i32::MIN <= n <= u32::MAX,
    ensures
        v@ == spec_int_chars(n as int),
{
    if n < 0 {
        let mut v: Vec<char> = Vec::new();
        v.push('-');
        let mut d = u64_chars((-n) as u64);
        v.append(&mut d);
        proof {
            assert(v@ =~= seq!['-'] + spec_digits((-n) as nat));
        }
        v
    } else {
        u64_chars(n as u64)
    }
}

} // verus!
