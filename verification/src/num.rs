//! Decimal integer parsing and formatting for the numeric header fields.
//!
//! The grammar is the one the standard library uses for integers: an optional
//! sign followed by one or more ASCII digits, nothing else, with inputs whose
//! value does not fit rejected.

use vstd::prelude::*;

verus! {

pub open spec fn is_digit(c: char) -> bool {
    48 <= (c as u32) <= 57
}

pub open spec fn digit_val(c: char) -> int {
    (c as u32) as int - 48
}

pub open spec fn all_digits(s: Seq<char>) -> bool {
    forall|i: int| 0 <= i < s.len() ==> is_digit(#[trigger] s[i])
}

/// The value of a digit string read left to right.
pub open spec fn dec_val(s: Seq<char>) -> int
    decreases s.len(),
{
    if s.len() == 0 {
        0
    } else {
        dec_val(s.drop_last()) * 10 + digit_val(s.last())
    }
}

/// What `str::parse` accepts for an unsigned integer bounded by `max`:
/// an optional leading `'+'`, then one or more digits, value at most `max`.
pub open spec fn spec_parse_uint(s: Seq<char>, max: int) -> Option<int> {
    let t = if s.len() > 0 && s[0] == '+' {
        s.drop_first()
    } else {
        s
    };
    if t.len() == 0 || !all_digits(t) || dec_val(t) > max {
        None
    } else {
        Some(dec_val(t))
    }
}

/// What `str::parse` accepts for a signed integer in `min ..= max`:
/// an optional leading `'-'` or `'+'`, then one or more digits.
pub open spec fn spec_parse_int(s: Seq<char>, min: int, max: int) -> Option<int> {
    let neg = s.len() > 0 && s[0] == '-';
    let t = if s.len() > 0 && (s[0] == '-' || s[0] == '+') {
        s.drop_first()
    } else {
        s
    };
    if t.len() == 0 || !all_digits(t) {
        None
    } else {
        let v = if neg {
            -dec_val(t)
        } else {
            dec_val(t)
        };
        if v < min || v > max {
            None
        } else {
            Some(v)
        }
    }
}

pub open spec fn digit_char(d: int) -> char {
    if d == 0 {
        '0'
    } else if d == 1 {
        '1'
    } else if d == 2 {
        '2'
    } else if d == 3 {
        '3'
    } else if d == 4 {
        '4'
    } else if d == 5 {
        '5'
    } else if d == 6 {
        '6'
    } else if d == 7 {
        '7'
    } else if d == 8 {
        '8'
    } else {
        '9'
    }
}

/// The canonical decimal digits of a non-negative integer.
pub open spec fn dec_repr(n: int) -> Seq<char>
    decreases n,
{
    if n < 10 {
        seq![digit_char(n)]
    } else {
        dec_repr(n / 10) + seq![digit_char(n % 10)]
    }
}

proof fn lemma_digit_char_val(d: int)
    requires
        0 <= d <= 9,
    ensures
        is_digit(digit_char(d)),
        digit_val(digit_char(d)) == d,
{
}

/// The canonical representation is non-empty, made of digits, and reads back
/// to the number it was made from.
pub proof fn lemma_dec_repr_val(n: int)
    requires
        n >= 0,
    ensures
        dec_repr(n).len() >= 1,
        all_digits(dec_repr(n)),
        dec_val(dec_repr(n)) == n,
    decreases n,
{
    if n < 10 {
        lemma_digit_char_val(n);
        let s = dec_repr(n);
        assert(s =~= seq![digit_char(n)]);
        assert(s.drop_last() =~= Seq::<char>::empty());
        assert(dec_val(s.drop_last()) == 0);
        assert(dec_val(s) == 0 * 10 + digit_val(digit_char(n)));
    } else {
        lemma_dec_repr_val(n / 10);
        lemma_digit_char_val(n % 10);
        let s = dec_repr(n);
        assert(s.drop_last() =~= dec_repr(n / 10));
        assert(s.last() == digit_char(n % 10));
        assert(dec_val(s) == dec_val(s.drop_last()) * 10 + digit_val(s.last()));
        assert(dec_val(s) == (n / 10) * 10 + (n % 10));
        assert(n == 10 * (n / 10) + n % 10);
    }
}

pub proof fn lemma_dec_val_nonneg(s: Seq<char>)
    requires
        all_digits(s),
    ensures
        dec_val(s) >= 0,
    decreases s.len(),
{
    if s.len() > 0 {
        lemma_dec_val_nonneg(s.drop_last());
    }
}

/// Extending a digit string never shrinks its value.
proof fn lemma_dec_val_prefix_grows(s: Seq<char>, k: int)
    requires
        all_digits(s),
        0 <= k <= s.len(),
    ensures
        dec_val(s) >= dec_val(s.take(k)),
    decreases s.len() - k,
{
    if k < s.len() {
        lemma_dec_val_prefix_grows(s, k + 1);
        assert(s.take(k + 1).drop_last() =~= s.take(k));
        assert(s.take(k + 1).last() == s[k]);
        assert(dec_val(s.take(k + 1)) == dec_val(s.take(k)) * 10 + digit_val(s[k]));
        lemma_dec_val_nonneg(s.take(k));
    } else {
        assert(s.take(k) =~= s);
    }
}

/// Reads the digits of `s` from position `from` to the end; `None` when a
/// non-digit appears, no digit appears, or the value exceeds `max`.
fn parse_digits(s: &str, from: usize, max: u64) -> (r: Option<u64>)
    requires
        from <= s@.len(),
        max <= 0xFFFF_FFFF,
    ensures
        ({
            let t = s@.skip(from as int);
            match r {
                Some(v) => t.len() > 0 && all_digits(t) && dec_val(t) == v as int && v <= max,
                None => t.len() == 0 || !all_digits(t) || dec_val(t) > max,
            }
        }),
{
    let n = s.unicode_len();
    if from == n {
        return None;
    }
    let ghost t = s@.skip(from as int);
    let mut acc: u64 = 0;
    let mut i: usize = from;
    while i < n
        invariant
            from <= i <= n,
            n == s@.len(),
            from < n,
            max <= 0xFFFF_FFFF,
            t == s@.skip(from as int),
            all_digits(t.take(i - from)),
            acc as int == dec_val(t.take(i - from)),
            acc <= max,
        decreases n - i,
    {
        let c = s.get_char(i);
        let u = c as u32;
        if u < 48 || u > 57 {
            assert(t[i - from] == c && !is_digit(c));
            return None;
        }
        let d = (u - 48) as u64;
        proof {
            assert(t[i - from] == c && is_digit(c));
            assert(t.take(i - from + 1).drop_last() =~= t.take(i - from));
            assert(t.take(i - from + 1).last() == c);
            assert(dec_val(t.take(i - from + 1)) == acc as int * 10 + d);
        }
        if acc > max / 10 || 10 * acc + d > max {
            proof {
                if all_digits(t) {
                    if acc > max / 10 {
                        assert(max == 10 * (max / 10) + max % 10);
                        assert(acc as int * 10 + d > max);
                    }
                    lemma_dec_val_prefix_grows(t, i - from + 1);
                }
            }
            return None;
        }
        acc = 10 * acc + d;
        i += 1;
    }
    proof {
        assert(t.take(n - from) =~= t);
    }
    Some(acc)
}

/// Parses an unsigned decimal with optional `'+'`, bounded by `max`.
fn parse_uint(s: &str, max: u64) -> (r: Option<u64>)
    requires
        max <= 0xFFFF_FFFF,
    ensures
        match r {
            Some(v) => spec_parse_uint(s@, max as int) == Some(v as int),
            None => spec_parse_uint(s@, max as int) is None,
        },
{
    let n = s.unicode_len();
    let from: usize = if n > 0 && s.get_char(0) == '+' {
        1
    } else {
        0
    };
    proof {
        if from == 1 {
            assert(s@.skip(1) =~= s@.drop_first());
        } else {
            assert(s@.skip(0) =~= s@);
        }
    }
    parse_digits(s, from, max)
}

/// `str::parse::<u8>`.
pub fn parse_u8(s: &str) -> (r: Option<u8>)
    ensures
        match r {
            Some(v) => spec_parse_uint(s@, 255) == Some(v as int),
            None => spec_parse_uint(s@, 255) is None,
        },
{
    match parse_uint(s, 255) {
        Some(v) => Some(v as u8),
        None => None,
    }
}

/// `str::parse::<u16>`.
pub fn parse_u16(s: &str) -> (r: Option<u16>)
    ensures
        match r {
            Some(v) => spec_parse_uint(s@, 65535) == Some(v as int),
            None => spec_parse_uint(s@, 65535) is None,
        },
{
    match parse_uint(s, 65535) {
        Some(v) => Some(v as u16),
        None => None,
    }
}

/// `str::parse::<i32>`.
pub fn parse_i32(s: &str) -> (r: Option<i32>)
    ensures
        match r {
            Some(v) => spec_parse_int(s@, i32::MIN as int, i32::MAX as int) == Some(v as int),
            None => spec_parse_int(s@, i32::MIN as int, i32::MAX as int) is None,
        },
{
    let n = s.unicode_len();
    let neg = n > 0 && s.get_char(0) == '-';
    let signed = n > 0 && (s.get_char(0) == '-' || s.get_char(0) == '+');
    let from: usize = if signed {
        1
    } else {
        0
    };
    proof {
        if from == 1 {
            assert(s@.skip(1) =~= s@.drop_first());
        } else {
            assert(s@.skip(0) =~= s@);
        }
    }
    let bound: u64 = if neg {
        2147483648
    } else {
        2147483647
    };
    match parse_digits(s, from, bound) {
        Some(v) => {
            if neg {
                Some((-(v as i64)) as i32)
            } else {
                Some(v as i32)
            }
        },
        None => {
            proof {
                let t = if s@.len() > 0 && (s@[0] == '-' || s@[0] == '+') {
                    s@.drop_first()
                } else {
                    s@
                };
                if t.len() > 0 && all_digits(t) {
                    lemma_dec_val_nonneg(t);
                }
            }
            None
        },
    }
}

/// The canonical decimal string of `n`, digit by digit.
pub fn format_u32(n: u32) -> (r: String)
    ensures
        r@ == dec_repr(n as int),
    decreases n,
{
    if n < 10 {
        let d = digit_str((n % 10) as u8);
        d.to_owned()
    } else {
        let head = format_u32(n / 10);
        let d = digit_str((n % 10) as u8);
        let r = head.concat(d);
        proof {
            assert(r@ =~= dec_repr(n as int));
        }
        r
    }
}

/// `u8::to_string`.
pub fn format_u8(n: u8) -> (r: String)
    ensures
        r@ == dec_repr(n as int),
{
    format_u32(n as u32)
}

/// `u16::to_string`.
pub fn format_u16(n: u16) -> (r: String)
    ensures
        r@ == dec_repr(n as int),
{
    format_u32(n as u32)
}

/// The canonical decimal string of a signed 32-bit integer: a `'-'` for
/// negative values, then the digits of the magnitude.
pub open spec fn dec_repr_i32(n: int) -> Seq<char> {
    if n < 0 {
        seq!['-'] + dec_repr(-n)
    } else {
        dec_repr(n)
    }
}

/// `i32::to_string`.
pub fn format_i32(n: i32) -> (r: String)
    ensures
        r@ == dec_repr_i32(n as int),
{
    if n < 0 {
        let m = (-(n as i64)) as u32;
        let digits = format_u32(m);
        let r = String::from_str("-").concat(digits.as_str());
        proof {
            reveal_strlit("-");
            assert(r@ =~= dec_repr_i32(n as int));
        }
        r
    } else {
        format_u32(n as u32)
    }
}

/// The single-character string for a digit value.
fn digit_str(d: u8) -> (r: &'static str)
    requires
        d <= 9,
    ensures
        r@ =~= seq![digit_char(d as int)],
{
    proof {
        reveal_strlit("0");
        reveal_strlit("1");
        reveal_strlit("2");
        reveal_strlit("3");
        reveal_strlit("4");
        reveal_strlit("5");
        reveal_strlit("6");
        reveal_strlit("7");
        reveal_strlit("8");
        reveal_strlit("9");
    }
    match d {
        0 => "0",
        1 => "1",
        2 => "2",
        3 => "3",
        4 => "4",
        5 => "5",
        6 => "6",
        7 => "7",
        8 => "8",
        _ => "9",
    }
}

/// Parsing the canonical representation gives the number back.
pub proof fn lemma_uint_round_trip(n: int, max: int)
    requires
        0 <= n <= max,
    ensures
        spec_parse_uint(dec_repr(n), max) == Some(n),
{
    lemma_dec_repr_val(n);
    let t = dec_repr(n);
    assert(is_digit(t[0]));
    assert(t[0] != '+') by {
        assert('+' as u32 == 43);
    }
}

/// Parsing the canonical signed representation gives the number back.
pub proof fn lemma_int_round_trip(n: int, min: int, max: int)
    requires
        min <= n <= max,
        min < 0 < max,
    ensures
        spec_parse_int(dec_repr_i32(n), min, max) == Some(n),
{
    if n >= 0 {
        lemma_dec_repr_val(n);
        let t = dec_repr(n);
        assert(is_digit(t[0]));
        assert(t[0] != '+' && t[0] != '-') by {
            assert(48 <= t[0] as u32 <= 57);
            assert('+' as u32 == 43 && '-' as u32 == 45);
        }
    } else {
        lemma_dec_repr_val(-n);
        let s = dec_repr_i32(n);
        assert(s[0] == '-');
        assert(s.drop_first() =~= dec_repr(-n));
    }
}

} // verus!
