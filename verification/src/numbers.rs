//! Numeric text handling: parsing signed decimal integers the way the range
//! parser needs them, and rendering unsigned values in decimal and in
//! fixed-width hexadecimal.
use vstd::prelude::*;
use crate::text::{digit_val, is_digit, is_digit_char};

verus! {

/// Value of a sequence of decimal digits, most significant first.
pub open spec fn digits_val(s: Seq<char>) -> int
    decreases s.len(),
{
    if s.len() == 0 {
        0
    } else {
        digits_val(s.drop_last()) * 10 + digit_val(s.last())
    }
}

/// Every character is an ASCII decimal digit.
pub open spec fn all_digits(s: Seq<char>) -> bool {
    forall|i: int| 0 <= i < s.len() ==> is_digit(s[i])
}

/// The value `s` denotes as a signed 64-bit decimal integer: an optional
/// `+` or `-` sign, then one or more digits, within the signed 64-bit range.
/// `None` when `s` is not of that shape.
pub open spec fn parse_signed(s: Seq<char>) -> Option<int> {
    if s.len() == 0 {
        None
    } else {
        let neg = s[0] == '-';
        let body = if s[0] == '-' || s[0] == '+' {
            s.drop_first()
        } else {
            s
        };
        if body.len() == 0 || !all_digits(body) {
            None
        } else {
            let v = if neg {
                -digits_val(body)
            } else {
                digits_val(body)
            };
            if -0x8000_0000_0000_0000 <= v <= 0x7fff_ffff_ffff_ffff {
                Some(v)
            } else {
                None
            }
        }
    }
}

pub proof fn lemma_digits_val_nonneg(s: Seq<char>)
    requires
        all_digits(s),
    ensures
        digits_val(s) >= 0,
    decreases s.len(),
{
    if s.len() > 0 {
        let t = s.drop_last();
        assert(all_digits(t));
        lemma_digits_val_nonneg(t);
        assert(digits_val(t) * 10 >= 0) by (nonlinear_arith)
            requires digits_val(t) >= 0;
        assert(digit_val(s.last()) >= 0);
    }
}

/// Parses `v[lo..hi]` as a signed 64-bit decimal integer, as `parse_signed`
/// describes.
pub fn parse_signed_range(v: &Vec<char>, lo: usize, hi: usize) -> (r: Option<i64>)
    requires
        lo <= hi <= v@.len(),
    ensures
        match r {
            Some(n) => parse_signed(v@.subrange(lo as int, hi as int)) == Some(n as int),
            None => parse_signed(v@.subrange(lo as int, hi as int)) is None,
        },
{
    let ghost s = v@.subrange(lo as int, hi as int);
    if lo == hi {
        return None;
    }
    let c0 = v[lo];
    let neg = c0 == '-';
    let start = if c0 == '-' || c0 == '+' {
        lo + 1
    } else {
        lo
    };
    let ghost body = v@.subrange(start as int, hi as int);
    proof {
        assert(s[0] == v@[lo as int]);
        if c0 == '-' || c0 == '+' {
            assert(s.drop_first() =~= body);
        } else {
            assert(s =~= body);
        }
    }
    if start == hi {
        return None;
    }
    // Accumulate the magnitude, saturating at 2^64 once the value can no
    // longer fit; any further digit keeps it at or above that bound.
    let bound: u128 = 0x1_0000_0000_0000_0000;
    let mut acc: u128 = 0;
    let mut i = start;
    while i < hi
        invariant
            start <= i <= hi <= v@.len(),
            lo <= start,
            body == v@.subrange(start as int, hi as int),
            !all_digits(body) ==> parse_signed(v@.subrange(lo as int, hi as int)) is None,
            acc <= 0x1_0000_0000_0000_0000,
            bound == 0x1_0000_0000_0000_0000,
            forall|j: int| start <= j < i ==> is_digit(v@[j]),
            acc < 0x1_0000_0000_0000_0000 ==> acc == digits_val(
                v@.subrange(start as int, i as int),
            ),
            acc == 0x1_0000_0000_0000_0000 ==> digits_val(v@.subrange(start as int, i as int))
                >= 0x1_0000_0000_0000_0000,
        decreases hi - i,
    {
        let c = v[i];
        if !is_digit_char(c) {
            proof {
                assert(body[i - start] == v@[i as int]);
                assert(!all_digits(body));
            }
            return None;
        }
        let d = (c as u32 - 48) as u128;
        let ghost pre = v@.subrange(start as int, i as int);
        let ghost post = v@.subrange(start as int, i + 1 as int);
        proof {
            assert(post.drop_last() =~= pre);
            assert(post.last() == v@[i as int]);
            assert(d == digit_val(v@[i as int]));
            assert(forall|j: int| 0 <= j < pre.len() ==> pre[j] == v@[start + j]);
            assert(all_digits(pre));
            lemma_digits_val_nonneg(pre);
        }
        if acc < bound {
            acc = acc * 10 + d;
            proof {
                assert(digits_val(post) == digits_val(pre) * 10 + digit_val(post.last()));
            }
            if acc > bound {
                acc = bound;
                proof {
                    assert(digits_val(post) >= 0x1_0000_0000_0000_0000);
                }
            }
        } else {
            proof {
                assert(digits_val(pre) * 10 >= digits_val(pre)) by (nonlinear_arith)
                    requires digits_val(pre) >= 0;
                assert(digits_val(post) >= 0x1_0000_0000_0000_0000);
            }
        }
        i = i + 1;
    }
    proof {
        assert(v@.subrange(start as int, i as int) =~= body);
        assert(all_digits(body));
        lemma_digits_val_nonneg(body);
    }
    if neg {
        if acc > 0x8000_0000_0000_0000 {
            None
        } else if acc == 0x8000_0000_0000_0000 {
            Some(i64::MIN)
        } else {
            Some(-(acc as i64))
        }
    } else {
        if acc > 0x7fff_ffff_ffff_ffff {
            None
        } else {
            Some(acc as i64)
        }
    }
}

/// The hexadecimal digit for a value below sixteen, lowercase.
pub open spec fn hex_digit(n: int) -> char {
    if n == 0 { '0' }
    else if n == 1 { '1' }
    else if n == 2 { '2' }
    else if n == 3 { '3' }
    else if n == 4 { '4' }
    else if n == 5 { '5' }
    else if n == 6 { '6' }
    else if n == 7 { '7' }
    else if n == 8 { '8' }
    else if n == 9 { '9' }
    else if n == 10 { 'a' }
    else if n == 11 { 'b' }
    else if n == 12 { 'c' }
    else if n == 13 { 'd' }
    else if n == 14 { 'e' }
    else { 'f' }
}

/// The hexadecimal digit for a value below sixteen, lowercase.
pub fn hex_digit_char(n: u64) -> (c: char)
    requires
        n < 16,
    ensures
        c == hex_digit(n as int),
{
    if n == 0 { '0' }
    else if n == 1 { '1' }
    else if n == 2 { '2' }
    else if n == 3 { '3' }
    else if n == 4 { '4' }
    else if n == 5 { '5' }
    else if n == 6 { '6' }
    else if n == 7 { '7' }
    else if n == 8 { '8' }
    else if n == 9 { '9' }
    else if n == 10 { 'a' }
    else if n == 11 { 'b' }
    else if n == 12 { 'c' }
    else if n == 13 { 'd' }
    else if n == 14 { 'e' }
    else { 'f' }
}

/// Decimal rendering of a non-negative value, without leading zeros
/// (a single zero for zero itself).
pub open spec fn dec_str(n: int) -> Seq<char>
    decreases n,
{
    if n < 10 {
        seq![hex_digit(n)]
    } else {
        dec_str(n / 10).push(hex_digit(n % 10))
    }
}

/// Appends the decimal rendering of `n` to `v`.
pub fn push_dec(v: &mut Vec<char>, n: u64)
    ensures
        final(v)@ == old(v)@ + dec_str(n as int),
    decreases n,
{
    if n < 10 {
        v.push(hex_digit_char(n));
        assert(v@ =~= old(v)@ + dec_str(n as int));
    } else {
        push_dec(v, n / 10);
        v.push(hex_digit_char(n % 10));
        assert(v@ =~= old(v)@ + dec_str(n as int));
    }
}

/// The sixteen-digit lowercase hexadecimal rendering of a 64-bit value,
/// zero-padded on the left.
pub open spec fn hex16(h: u64) -> Seq<char> {
    Seq::new(16, |i: int| hex_digit(((h >> (((15 - i) * 4) as u64)) & 0xf) as int))
}

/// Appends the sixteen-digit hexadecimal rendering of `h` to `v`.
pub fn push_hex16(v: &mut Vec<char>, h: u64)
    ensures
        final(v)@ == old(v)@ + hex16(h),
{
    let mut k: usize = 0;
    while k < 16
        invariant
            k <= 16,
            v@ == old(v)@ + hex16(h).subrange(0, k as int),
        decreases 16 - k,
    {
        let sh = ((15 - k) * 4) as u64;
        let d = (h >> sh) & 0xf;
        assert((h >> sh) & 0xf < 16) by (bit_vector);
        v.push(hex_digit_char(d));
        assert(v@ =~= old(v)@ + hex16(h).subrange(0, k + 1 as int));
        k = k + 1;
    }
    assert(hex16(h).subrange(0, 16) =~= hex16(h));
}

} // verus!
