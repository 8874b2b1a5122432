//! Decimal integers: the `str::parse` grammar for the integer types the
//! parsers read, and decimal printing as `Display` does it.
use vstd::prelude::*;

use crate::text::{is_digit, push_all};

verus! {

broadcast use vstd::seq_lib::group_seq_properties;

pub open spec fn digit_val(c: char) -> nat {
    ((c as u32) - 48) as nat
}

pub open spec fn all_digits(s: Seq<char>) -> bool {
    forall|i: int| 0 <= i < s.len() ==> is_digit(#[trigger] s[i])
}

/// The value of a string of decimal digits (0 for the empty string).
pub open spec fn digits_value(s: Seq<char>) -> nat
    decreases s.len(),
{
    if s.len() == 0 {
        0
    } else {
        digits_value(s.drop_last()) * 10 + digit_val(s.last())
    }
}

/// A non-empty string of decimal digits, read as a number.
pub open spec fn digits_number(s: Seq<char>) -> Option<nat> {
    if s.len() > 0 && all_digits(s) {
        Some(digits_value(s))
    } else {
        None
    }
}

/// `str::parse` for an unsigned integer type whose largest value is `max`:
/// an optional `+` and then at least one decimal digit, no other character,
/// and a value that fits.
pub open spec fn parse_unsigned(s: Seq<char>, max: nat) -> Option<nat> {
    let body = if s.len() > 0 && s[0] == '+' {
        s.drop_first()
    } else {
        s
    };
    match digits_number(body) {
        Some(v) => if v <= max {
            Some(v)
        } else {
            None
        },
        None => None,
    }
}

/// `str::parse::<i64>`: an optional sign and then at least one decimal digit,
/// with a value in the `i64` range.
pub open spec fn parse_i64(s: Seq<char>) -> Option<int> {
    if s.len() > 0 && s[0] == '-' {
        match digits_number(s.drop_first()) {
            Some(v) => if v <= 0x8000_0000_0000_0000 {
                Some(-v)
            } else {
                None
            },
            None => None,
        }
    } else {
        match parse_unsigned(s, 0x7fff_ffff_ffff_ffff) {
            Some(v) => Some(v as int),
            None => None,
        }
    }
}

pub open spec fn digit_char(d: nat) -> char {
    if d == 0 {
        '0'
    } else if d == 1 {
        '1'
    } else if d == 2 {
        '2'
    } else if d == 3 {
        '3'
    } else if d == 4 {
        '4'
    } else if d == 5 {
        '5'
    } else if d == 6 {
        '6'
    } else if d == 7 {
        '7'
    } else if d == 8 {
        '8'
    } else {
        '9'
    }
}

/// Decimal notation of a natural number, as `Display` prints it.
pub open spec fn dec(n: nat) -> Seq<char>
    decreases n,
{
    if n < 10 {
        seq![digit_char(n)]
    } else {
        dec(n / 10) + seq![digit_char(n % 10)]
    }
}

/// Decimal notation of an integer, with a leading `-` when negative.
pub open spec fn int_dec(i: int) -> Seq<char> {
    if i < 0 {
        seq!['-'] + dec((-i) as nat)
    } else {
        dec(i as nat)
    }
}

proof fn lemma_digits_prefix_mono(s: Seq<char>, j: int)
    requires
        0 <= j <= s.len(),
        all_digits(s),
    ensures
        digits_value(s.take(j)) <= digits_value(s),
    decreases s.len() - j,
{
    if j < s.len() {
        lemma_digits_prefix_mono(s, j + 1);
        assert(s.take(j + 1).drop_last() =~= s.take(j));
        assert(digits_value(s.take(j + 1)) == digits_value(s.take(j)) * 10 + digit_val(
            s.take(j + 1).last(),
        ));
    } else {
        assert(s.take(j) =~= s);
    }
}

proof fn lemma_step_fits(acc: nat, d: nat, max: nat)
    requires
        d <= 9,
        d <= max,
        acc <= (max - d) / 10,
    ensures
        acc * 10 + d <= max,
{
    assert(acc * 10 <= ((max - d) / 10) * 10) by (nonlinear_arith)
        requires
            acc <= (max - d) / 10,
    ;
    assert(((max - d) / 10) * 10 <= max - d) by (nonlinear_arith)
        requires
            max >= d,
    ;
}

proof fn lemma_step_overflows(acc: nat, d: nat, max: nat)
    requires
        d <= 9,
        d > max || acc > (max - d) / 10,
    ensures
        acc * 10 + d > max,
{
    if d <= max {
        assert(((max - d) / 10 + 1) * 10 > max - d) by (nonlinear_arith)
            requires
                max >= d,
        ;
        assert(acc * 10 >= ((max - d) / 10 + 1) * 10) by (nonlinear_arith)
            requires
                acc >= (max - d) / 10 + 1,
        ;
    }
}

/// Reads `v[from..]` as a non-empty string of digits whose value is at most `max`.
fn digits_at_most(v: &Vec<char>, from: usize, max: u64) -> (r: Option<u64>)
    requires
        from <= v.len(),
    ensures
        match r {
            Some(x) => digits_number(v@.skip(from as int)) == Some(x as nat) && x <= max,
            None => match digits_number(v@.skip(from as int)) {
                Some(n) => n > max,
                None => true,
            },
        },
{
    let ghost b = v@.skip(from as int);
    if from == v.len() {
        return None;
    }
    let mut acc: u64 = 0;
    let mut k: usize = from;
    assert(b.take(0) =~= Seq::<char>::empty());
    while k < v.len()
        invariant
            from <= k <= v.len(),
            b == v@.skip(from as int),
            all_digits(b.take(k - from)),
            acc as nat == digits_value(b.take(k - from)),
            acc <= max,
        decreases v.len() - k,
    {
        let c = v[k];
        if c < '0' || c > '9' {
            assert(!is_digit(b[k - from]));
            return None;
        }
        let d = (c as u32 - 48) as u64;
        let ghost t = b.take(k - from + 1);
        assert(t.drop_last() =~= b.take(k - from));
        assert(t.last() == c);
        assert(all_digits(t)) by {
            assert forall|i: int| 0 <= i < t.len() implies is_digit(#[trigger] t[i]) by {
                if i < t.len() - 1 {
                    assert(t[i] == b.take(k - from)[i]);
                }
            }
        }
        if d > max || acc > (max - d) / 10 {
            proof {
                lemma_step_overflows(acc as nat, d as nat, max as nat);
                if all_digits(b) {
                    lemma_digits_prefix_mono(b, k - from + 1);
                }
            }
            return None;
        }
        proof {
            lemma_step_fits(acc as nat, d as nat, max as nat);
        }
        acc = acc * 10 + d;
        k += 1;
    }
    assert(b.take(k - from) =~= b);
    Some(acc)
}

fn parse_unsigned_max(v: &Vec<char>, max: u64) -> (r: Option<u64>)
    ensures
        match r {
            Some(x) => parse_unsigned(v@, max as nat) == Some(x as nat),
            None => parse_unsigned(v@, max as nat) is None,
        },
{
    let from: usize = if v.len() > 0 && v[0] == '+' {
        1
    } else {
        0
    };
    assert(v@.skip(1) =~= v@.drop_first());
    assert(v@.skip(0) =~= v@);
    digits_at_most(v, from, max)
}

/// `str::parse::<u16>`.
pub fn parse_u16(v: &Vec<char>) -> (r: Option<u16>)
    ensures
        match r {
            Some(x) => parse_unsigned(v@, u16::MAX as nat) == Some(x as nat),
            None => parse_unsigned(v@, u16::MAX as nat) is None,
        },
{
    match parse_unsigned_max(v, 0xffff) {
        Some(x) => Some(x as u16),
        None => None,
    }
}

/// `str::parse::<u32>`.
pub fn parse_u32(v: &Vec<char>) -> (r: Option<u32>)
    ensures
        match r {
            Some(x) => parse_unsigned(v@, u32::MAX as nat) == Some(x as nat),
            None => parse_unsigned(v@, u32::MAX as nat) is None,
        },
{
    match parse_unsigned_max(v, 0xffff_ffff) {
        Some(x) => Some(x as u32),
        None => None,
    }
}

/// `str::parse::<u64>`.
pub fn parse_u64(v: &Vec<char>) -> (r: Option<u64>)
    ensures
        match r {
            Some(x) => parse_unsigned(v@, u64::MAX as nat) == Some(x as nat),
            None => parse_unsigned(v@, u64::MAX as nat) is None,
        },
{
    parse_unsigned_max(v, 0xffff_ffff_ffff_ffff)
}

/// `str::parse::<i64>`.
pub fn parse_i64_chars(v: &Vec<char>) -> (r: Option<i64>)
    ensures
        match r {
            Some(x) => parse_i64(v@) == Some(x as int),
            None => parse_i64(v@) is None,
        },
{
    if v.len() > 0 && v[0] == '-' {
        assert(v@.skip(1) =~= v@.drop_first());
        match digits_at_most(v, 1, 0x8000_0000_0000_0000) {
            Some(m) => {
                if m == 0x8000_0000_0000_0000 {
                    Some(i64::MIN)
                } else {
                    Some(-(m as i64))
                }
            },
            None => None,
        }
    } else {
        match parse_unsigned_max(v, 0x7fff_ffff_ffff_ffff) {
            Some(x) => Some(x as i64),
            None => None,
        }
    }
}

fn digit_char_exec(d: u64) -> (c: char)
    requires
        d < 10,
    ensures
        c == digit_char(d as nat),
{
    if d == 0 {
        '0'
    } else if d == 1 {
        '1'
    } else if d == 2 {
        '2'
    } else if d == 3 {
        '3'
    } else if d == 4 {
        '4'
    } else if d == 5 {
        '5'
    } else if d == 6 {
        '6'
    } else if d == 7 {
        '7'
    } else if d == 8 {
        '8'
    } else {
        '9'
    }
}

/// Decimal notation of `n`.
pub fn u64_dec(n: u64) -> (r: Vec<char>)
    ensures
        r@ == dec(n as nat),
    decreases n,
{
    if n < 10 {
        let mut r: Vec<char> = Vec::new();
        r.push(digit_char_exec(n));
        assert(r@ =~= seq![digit_char(n as nat)]);
        r
    } else {
        let mut r = u64_dec(n / 10);
        r.push(digit_char_exec(n % 10));
        r
    }
}

/// Decimal notation of `n`, with a leading `-` when negative.
pub fn i64_dec(n: i64) -> (r: Vec<char>)
    ensures
        r@ == int_dec(n as int),
{
    if n < 0 {
        let m: u64 = if n == i64::MIN {
            0x8000_0000_0000_0000
        } else {
            (-n) as u64
        };
        let mut r: Vec<char> = Vec::new();
        r.push('-');
        let d = u64_dec(m);
        push_all(&mut r, &d);
        assert(r@ =~= seq!['-'] + dec((-(n as int)) as nat));
        r
    } else {
        u64_dec(n as u64)
    }
}

} // verus!
