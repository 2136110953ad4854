//! Decimal numerals: rendering integers as text and reading integers from
//! text, both pinned to one pair of spec functions.
use vstd::prelude::*;

use crate::chars::push_char;

verus! {

/// The decimal digit character for a value in `0 ..= 9`.
pub open spec fn digit_char(d: int) -> char {
    if d == 0 {
        '0'
    } else if d == 1 {
        '1'
    } else if d == 2 {
        '2'
    } else if d == 3 {
        '3'
    } else if d == 4 {
        '4'
    } else if d == 5 {
        '5'
    } else if d == 6 {
        '6'
    } else if d == 7 {
        '7'
    } else if d == 8 {
        '8'
    } else {
        '9'
    }
}

/// The usual decimal rendering of a non-negative integer, most significant
/// digit first, with no leading zeros (and `0` rendered as "0").
pub open spec fn spec_dec_u(n: int) -> Seq<char>
    decreases n,
{
    if n < 10 {
        seq![digit_char(n)]
    } else {
        spec_dec_u(n / 10).push(digit_char(n % 10))
    }
}

/// The decimal rendering of any integer: a minus sign before the magnitude
/// for negative values.
pub open spec fn spec_dec_i(n: int) -> Seq<char> {
    if n < 0 {
        seq!['-'] + spec_dec_u(-n)
    } else {
        spec_dec_u(n)
    }
}

/// A decimal rendering holds at least one character.
pub proof fn lemma_dec_u_len(n: int)
    ensures
        spec_dec_u(n).len() >= 1,
        n >= 10 ==> spec_dec_u(n).len() >= 2,
    decreases n,
{
    if n >= 10 {
        lemma_dec_u_len(n / 10);
    }
}

/// Digit characters of distinct digits differ.
proof fn lemma_digit_char_injective(a: int, b: int)
    requires
        0 <= a < 10,
        0 <= b < 10,
        digit_char(a) == digit_char(b),
    ensures
        a == b,
{
}

/// Distinct non-negative integers render as distinct numerals; this is what
/// makes index-derived labels unique.
pub proof fn lemma_dec_u_injective(m: int, n: int)
    requires
        0 <= m,
        0 <= n,
        spec_dec_u(m) == spec_dec_u(n),
    ensures
        m == n,
    decreases m + n,
{
    lemma_dec_u_len(m);
    lemma_dec_u_len(n);
    if m < 10 && n < 10 {
        assert(seq![digit_char(m)][0] == digit_char(m));
        assert(seq![digit_char(n)][0] == digit_char(n));
        assert(spec_dec_u(m)[0] == spec_dec_u(n)[0]);
        lemma_digit_char_injective(m, n);
    } else if m < 10 {
        assert(spec_dec_u(m).len() == 1);
    } else if n < 10 {
        assert(spec_dec_u(n).len() == 1);
    } else {
        let sm = spec_dec_u(m / 10);
        let sn = spec_dec_u(n / 10);
        assert(sm.push(digit_char(m % 10)).last() == digit_char(m % 10));
        lemma_digit_char_injective(m % 10, n % 10);
        assert(m % 10 == n % 10);
        assert(sm =~= sn) by {
            assert(sm.push(digit_char(m % 10)).drop_last() =~= sm);
            assert(sn.push(digit_char(n % 10)).drop_last() =~= sn);
        }
        lemma_dec_u_injective(m / 10, n / 10);
    }
}

/// The digit character for `d`, executable form.
fn digit_to_char(d: u8) -> (c: char)
    requires
        d < 10,
    ensures
        c == digit_char(d as int),
{
    match d {
        0 => '0',
        1 => '1',
        2 => '2',
        3 => '3',
        4 => '4',
        5 => '5',
        6 => '6',
        7 => '7',
        8 => '8',
        _ => '9',
    }
}

/// Renders a non-negative integer in decimal.
pub fn dec_u128(n: u128) -> (r: String)
    ensures
        r@ == spec_dec_u(n as int),
    decreases n,
{
    if n < 10 {
        let mut s = String::new();
        push_char(&mut s, digit_to_char(n as u8));
        assert(s@ =~= spec_dec_u(n as int));
        s
    } else {
        let mut s = dec_u128(n / 10);
        push_char(&mut s, digit_to_char((n % 10) as u8));
        s
    }
}

/// Renders a `u64` in decimal.
pub fn dec_u64(n: u64) -> (r: String)
    ensures
        r@ == spec_dec_u(n as int),
{
    dec_u128(n as u128)
}

/// Renders a signed integer in decimal, minus sign included.
pub fn dec_i64(n: i64) -> (r: String)
    ensures
        r@ == spec_dec_i(n as int),
{
    if n >= 0 {
        dec_u128(n as u128)
    } else {
        let magnitude: u128 = (-(n as i128)) as u128;
        let mut s = String::new();
        push_char(&mut s, '-');
        let digits = dec_u128(magnitude);
        s.append(digits.as_str());
        assert(s@ =~= seq!['-'] + spec_dec_u(-(n as int)));
        s
    }
}

/// Whether `c` is an ASCII decimal digit.
pub open spec fn is_digit_char(c: char) -> bool {
    48 <= (c as u32) && (c as u32) <= 57
}

/// The numeric value of an ASCII digit character.
pub open spec fn digit_val(c: char) -> int {
    (c as u32) - 48
}

/// Whether every character of `s` is an ASCII decimal digit.
pub open spec fn all_digits(s: Seq<char>) -> bool {
    forall|i: int| 0 <= i < s.len() ==> is_digit_char(#[trigger] s[i])
}

/// The value of a sequence of digit characters read in base 10.
pub open spec fn digits_val(s: Seq<char>) -> int
    decreases s.len(),
{
    if s.len() == 0 {
        0
    } else {
        digits_val(s.drop_last()) * 10 + digit_val(s.last())
    }
}

/// A digit string never has a negative value.
pub proof fn lemma_digits_val_nonneg(s: Seq<char>)
    requires
        all_digits(s),
    ensures
        digits_val(s) >= 0,
    decreases s.len(),
{
    if s.len() > 0 {
        assert(all_digits(s.drop_last()));
        lemma_digits_val_nonneg(s.drop_last());
    }
}

/// Extending a digit string on the right never shrinks its value.
proof fn lemma_digits_prefix_le(s: Seq<char>, k: int)
    requires
        all_digits(s),
        0 <= k <= s.len(),
    ensures
        digits_val(s.subrange(0, k)) <= digits_val(s),
    decreases s.len() - k,
{
    if k < s.len() {
        let t = s.subrange(0, k + 1);
        assert(t.drop_last() =~= s.subrange(0, k));
        assert(all_digits(s.subrange(0, k)));
        lemma_digits_val_nonneg(s.subrange(0, k));
        assert(digits_val(s.subrange(0, k)) <= digits_val(t));
        lemma_digits_prefix_le(s, k + 1);
        assert(s.subrange(0, s.len() as int) =~= s);
    } else {
        assert(s.subrange(0, k) =~= s);
    }
}

/// What `str::parse::<i64>` accepts and returns: an optional sign, then one
/// or more ASCII digits, with the value in the range of `i64`.
pub open spec fn spec_parse_i64(s: Seq<char>) -> Option<i64> {
    let signed = s.len() > 0 && (s[0] == '-' || s[0] == '+');
    let neg = s.len() > 0 && s[0] == '-';
    let ds = if signed {
        s.subrange(1, s.len() as int)
    } else {
        s
    };
    if ds.len() == 0 || !all_digits(ds) {
        None
    } else if neg {
        if -digits_val(ds) >= i64::MIN {
            Some((-digits_val(ds)) as i64)
        } else {
            None
        }
    } else {
        if digits_val(ds) <= i64::MAX {
            Some(digits_val(ds) as i64)
        } else {
            None
        }
    }
}

/// Reads a decimal integer, mirroring `str::parse::<i64>` exactly: optional
/// sign, at least one digit, and the value must fit in `i64`.
pub fn parse_i64_chars(cs: &Vec<char>) -> (r: Option<i64>)
    ensures
        r == spec_parse_i64(cs@),
{
    let n = cs.len();
    let ghost s = cs@;
    let mut start: usize = 0;
    let mut neg = false;
    if n > 0 && (cs[0] == '-' || cs[0] == '+') {
        start = 1;
        neg = cs[0] == '-';
    }
    let ghost ds = if start == 1 {
        s.subrange(1, s.len() as int)
    } else {
        s
    };
    if start >= n {
        // empty input or a bare sign
        assert(ds.len() == 0);
        return None;
    }
    let limit: u128 = if neg {
        9223372036854775808u128
    } else {
        9223372036854775807u128
    };
    let mut acc: u128 = 0;
    let mut i: usize = start;
    while i < n
        invariant
            start <= i <= n,
            n == s.len(),
            cs@ == s,
            start == 0 || start == 1,
            start == 1 ==> s.len() > 0 && (s[0] == '-' || s[0] == '+'),
            start == 0 ==> !(s.len() > 0 && (s[0] == '-' || s[0] == '+')),
            neg <==> (s.len() > 0 && s[0] == '-'),
            ds == (if start == 1 { s.subrange(1, s.len() as int) } else { s }),
            limit == if neg { 9223372036854775808u128 } else { 9223372036854775807u128 },
            all_digits(ds.subrange(0, i - start)),
            acc == digits_val(ds.subrange(0, i - start)),
            acc <= limit,
        decreases n - i,
    {
        let c = cs[i];
        let code: u32 = c as u32;
        if code < 48 || code > 57 {
            assert(ds[i - start] == c);
            assert(!all_digits(ds));
            return None;
        }
        let d: u128 = (code - 48) as u128;
        let next: u128 = acc * 10 + d;
        assert(acc * 10 + d <= limit * 10 + 9) by (nonlinear_arith)
            requires
                acc <= limit,
                d <= 9,
        ;
        proof {
            let k = i - start;
            assert(ds.subrange(0, k + 1).drop_last() =~= ds.subrange(0, k));
            assert(ds.subrange(0, k + 1).last() == c);
            assert(all_digits(ds.subrange(0, k + 1)));
        }
        if next > limit {
            proof {
                if all_digits(ds) {
                    lemma_digits_prefix_le(ds, i + 1 - start);
                    assert(digits_val(ds) >= next > limit);
                }
            }
            return None;
        }
        acc = next;
        i = i + 1;
    }
    proof {
        assert(ds.subrange(0, n - start) =~= ds);
    }
    if neg {
        if acc == 9223372036854775808u128 {
            Some(i64::MIN)
        } else {
            Some(-(acc as i64))
        }
    } else {
        Some(acc as i64)
    }
}

} // verus!
