//! Decimal text: parsing digit strings and fixed-point decimals into
//! integers, and formatting integers back into digit strings.
//!
//! Values that the probe reports as decimal text (durations, frame
//! rates) are carried in the library as scaled integers, so all parsing
//! here is exact integer arithmetic.

use vstd::prelude::*;
use crate::text::{first_idx, find_first};

verus! {

/// Whether `c` is an ASCII decimal digit.
pub open spec fn is_digit(c: char) -> bool {
    '0' <= c && c <= '9'
}

/// The numeric value of a digit character.
pub open spec fn digit_val(c: char) -> int {
    (c as int) - ('0' as int)
}

/// Whether every character of `s` is an ASCII decimal digit.
pub open spec fn all_digits(s: Seq<char>) -> bool {
    forall|i: int| 0 <= i < s.len() ==> is_digit(#[trigger] s[i])
}

/// The value of a digit string read as a base-10 numeral.
pub open spec fn dec_val(s: Seq<char>) -> int
    decreases s.len(),
{
    if s.len() == 0 {
        0
    } else {
        dec_val(s.drop_last()) * 10 + digit_val(s.last())
    }
}

/// Ten to the `k`-th power.
pub open spec fn pow10(k: nat) -> int
    decreases k,
{
    if k == 0 {
        1
    } else {
        10 * pow10((k - 1) as nat)
    }
}

/// The digit character standing for value `d`.
pub open spec fn digit_char(d: int) -> char {
    if d == 0 {
        '0'
    } else if d == 1 {
        '1'
    } else if d == 2 {
        '2'
    } else if d == 3 {
        '3'
    } else if d == 4 {
        '4'
    } else if d == 5 {
        '5'
    } else if d == 6 {
        '6'
    } else if d == 7 {
        '7'
    } else if d == 8 {
        '8'
    } else {
        '9'
    }
}

/// The base-10 numeral of `n`, most significant digit first.
pub open spec fn dec_str(n: nat) -> Seq<char>
    decreases n,
{
    if n < 10 {
        seq![digit_char(n as int)]
    } else {
        dec_str(n / 10).push(digit_char((n % 10) as int))
    }
}

/// A digit string's value is never negative.
pub proof fn lemma_dec_val_nonneg(s: Seq<char>)
    requires
        all_digits(s),
    ensures
        dec_val(s) >= 0,
    decreases s.len(),
{
    if s.len() > 0 {
        assert(all_digits(s.drop_last()));
        lemma_dec_val_nonneg(s.drop_last());
    }
}

/// Appending one digit multiplies the value by ten and adds the digit.
pub proof fn lemma_dec_val_push(s: Seq<char>, c: char)
    ensures
        dec_val(s.push(c)) == dec_val(s) * 10 + digit_val(c),
{
    assert(s.push(c).drop_last() =~= s);
    assert(s.push(c).last() == c);
}

/// The value of a concatenation of digit strings: the left part is scaled
/// by ten to the length of the right part.
pub proof fn lemma_dec_val_concat(a: Seq<char>, b: Seq<char>)
    ensures
        dec_val(a + b) == dec_val(a) * pow10(b.len()) + dec_val(b),
    decreases b.len(),
{
    if b.len() == 0 {
        assert(a + b =~= a);
    } else {
        let b0 = b.drop_last();
        lemma_dec_val_concat(a, b0);
        assert((a + b).drop_last() =~= a + b0);
        assert(dec_val(a + b) == dec_val(a + b0) * 10 + digit_val(b.last()));
        assert(dec_val(a) * pow10(b0.len()) * 10 == dec_val(a) * (pow10(b0.len()) * 10))
            by (nonlinear_arith);
        assert(pow10(b0.len()) * 10 == pow10(b.len()));
    }
}

/// The numeric value of a digit character, as an executable step.
fn digit_value(c: char) -> (d: u64)
    requires
        is_digit(c),
    ensures
        d == digit_val(c),
        d <= 9,
{
    ((c as u32) - ('0' as u32)) as u64
}

/// Reads `s[from..to]` as a base-10 numeral.  Returns `None` when a
/// non-digit stands in the range or the value does not fit in `u64`;
/// an empty range reads as zero.
pub fn digits_val_range(s: &str, from: usize, to: usize) -> (r: Option<u64>)
    requires
        0 <= from <= to <= s@.len(),
    ensures
        r is Some <==> (all_digits(s@.subrange(from as int, to as int)) && dec_val(
            s@.subrange(from as int, to as int),
        ) <= u64::MAX),
        r is Some ==> r->0 == dec_val(s@.subrange(from as int, to as int)),
{
    let ghost whole = s@.subrange(from as int, to as int);
    let mut i: usize = from;
    let mut acc: u64 = 0;
    let mut overflow = false;
    while i < to
        invariant
            from <= i <= to <= s@.len(),
            whole == s@.subrange(from as int, to as int),
            all_digits(s@.subrange(from as int, i as int)),
            !overflow ==> acc == dec_val(s@.subrange(from as int, i as int)),
            overflow ==> dec_val(s@.subrange(from as int, i as int)) > u64::MAX,
        decreases to - i,
    {
        let ghost pre = s@.subrange(from as int, i as int);
        let c = s.get_char(i);
        if !('0' <= c && c <= '9') {
            proof {
                assert(whole[i - from] == c);
            }
            return None;
        }
        let d: u64 = digit_value(c);
        proof {
            assert(s@.subrange(from as int, i + 1) =~= pre.push(c));
            lemma_dec_val_push(pre, c);
        }
        if !overflow {
            if acc > (u64::MAX - d) / 10 {
                proof {
                    assert(acc * 10 + d > u64::MAX) by (nonlinear_arith)
                        requires
                            acc > (u64::MAX - d) / 10,
                            0 <= d <= 9,
                    ;
                }
                overflow = true;
            } else {
                proof {
                    assert(acc * 10 + d <= u64::MAX) by (nonlinear_arith)
                        requires
                            acc <= (u64::MAX - d) / 10,
                            0 <= acc,
                            0 <= d <= 9,
                    ;
                }
                acc = acc * 10 + d;
            }
        } else {
            proof {
                lemma_dec_val_nonneg(pre);
                assert(dec_val(pre.push(c)) > u64::MAX) by (nonlinear_arith)
                    requires
                        dec_val(pre.push(c)) == dec_val(pre) * 10 + digit_val(c),
                        dec_val(pre) > u64::MAX,
                        digit_val(c) >= 0,
                ;
            }
        }
        i = i + 1;
    }
    proof {
        assert(s@.subrange(from as int, to as int) =~= whole);
    }
    if overflow {
        None
    } else {
        Some(acc)
    }
}

/// Reads the whole of `s` as a base-10 numeral.  Returns `None` when `s`
/// is empty, holds a non-digit, or its value does not fit in `u64`.
pub fn parse_u64(s: &str) -> (r: Option<u64>)
    ensures
        r is Some <==> (s@.len() > 0 && all_digits(s@) && dec_val(s@) <= u64::MAX),
        r is Some ==> r->0 == dec_val(s@),
{
    let n = s.unicode_len();
    if n == 0 {
        return None;
    }
    let r = digits_val_range(s, 0, n);
    proof {
        assert(s@.subrange(0, n as int) =~= s@);
    }
    r
}

/// The numeral of a single digit, as a string slice.
fn digit_str(d: u64) -> (r: &'static str)
    requires
        d <= 9,
    ensures
        r@ =~= seq![digit_char(d as int)],
{
    if d == 0 {
        proof {
            reveal_strlit("0");
        }
        "0"
    } else if d == 1 {
        proof {
            reveal_strlit("1");
        }
        "1"
    } else if d == 2 {
        proof {
            reveal_strlit("2");
        }
        "2"
    } else if d == 3 {
        proof {
            reveal_strlit("3");
        }
        "3"
    } else if d == 4 {
        proof {
            reveal_strlit("4");
        }
        "4"
    } else if d == 5 {
        proof {
            reveal_strlit("5");
        }
        "5"
    } else if d == 6 {
        proof {
            reveal_strlit("6");
        }
        "6"
    } else if d == 7 {
        proof {
            reveal_strlit("7");
        }
        "7"
    } else if d == 8 {
        proof {
            reveal_strlit("8");
        }
        "8"
    } else {
        proof {
            reveal_strlit("9");
        }
        "9"
    }
}

/// A digit string's value is below ten to its length.
pub proof fn lemma_dec_val_upper(s: Seq<char>)
    requires
        all_digits(s),
    ensures
        dec_val(s) < pow10(s.len()),
    decreases s.len(),
{
    if s.len() == 0 {
    } else {
        let s0 = s.drop_last();
        assert(all_digits(s0));
        lemma_dec_val_upper(s0);
        assert(dec_val(s0) * 10 + digit_val(s.last()) < pow10(s0.len()) * 10) by (nonlinear_arith)
            requires
                dec_val(s0) < pow10(s0.len()),
                digit_val(s.last()) <= 9,
        ;
        assert(pow10(s0.len()) * 10 == pow10(s.len()));
    }
}

/// A string of zero digits reads as zero.
pub proof fn lemma_dec_val_zeros(m: nat)
    ensures
        dec_val(Seq::new(m, |i: int| '0')) == 0,
    decreases m,
{
    let z = Seq::new(m, |i: int| '0');
    if m > 0 {
        let z0 = Seq::new((m - 1) as nat, |i: int| '0');
        assert(z.drop_last() =~= z0);
        lemma_dec_val_zeros((m - 1) as nat);
    }
}

/// Ten to any power is at least one.
pub proof fn lemma_pow10_pos(k: nat)
    ensures
        pow10(k) >= 1,
    decreases k,
{
    if k > 0 {
        lemma_pow10_pos((k - 1) as nat);
    }
}

/// Ten to a larger power is no smaller.
pub proof fn lemma_pow10_le(i: nat, j: nat)
    requires
        i <= j,
    ensures
        pow10(i) <= pow10(j),
    decreases j - i,
{
    if i < j {
        lemma_pow10_le(i, (j - 1) as nat);
        lemma_pow10_pos((j - 1) as nat);
    }
}

/// Computes ten to the `k`-th power.
pub fn pow10_u64(k: u32) -> (r: u64)
    requires
        k <= 9,
    ensures
        r == pow10(k as nat),
{
    proof {
        reveal_with_fuel(pow10, 11);
    }
    let mut r: u64 = 1;
    let mut i: u32 = 0;
    while i < k
        invariant
            0 <= i <= k <= 9,
            r == pow10(i as nat),
            pow10(9) == 1000000000,
        decreases k - i,
    {
        proof {
            lemma_pow10_pos(i as nat);
            lemma_pow10_le((i + 1) as nat, 9);
        }
        r = r * 10;
        i = i + 1;
    }
    r
}

/// Whether every character of `s[from..to]` is an ASCII decimal digit.
pub fn all_digits_range(s: &str, from: usize, to: usize) -> (r: bool)
    requires
        0 <= from <= to <= s@.len(),
    ensures
        r == all_digits(s@.subrange(from as int, to as int)),
{
    let ghost whole = s@.subrange(from as int, to as int);
    let mut i: usize = from;
    while i < to
        invariant
            from <= i <= to <= s@.len(),
            whole == s@.subrange(from as int, to as int),
            all_digits(s@.subrange(from as int, i as int)),
        decreases to - i,
    {
        let c = s.get_char(i);
        if !('0' <= c && c <= '9') {
            proof {
                assert(whole[i - from] == c);
            }
            return false;
        }
        proof {
            assert(s@.subrange(from as int, i + 1) =~= s@.subrange(from as int, i as int).push(
                c,
            ));
        }
        i = i + 1;
    }
    proof {
        assert(s@.subrange(from as int, to as int) =~= whole);
    }
    true
}

/// Whether `s` is a plain non-negative decimal numeral: digits with at
/// most one dot, and at least one digit.
pub open spec fn is_decimal(s: Seq<char>) -> bool {
    let di = first_idx(s, '.');
    if di == -1 {
        s.len() > 0 && all_digits(s)
    } else {
        s.len() > 1 && all_digits(s.subrange(0, di)) && all_digits(
            s.subrange(di + 1, s.len() as int),
        )
    }
}

/// The fractional digits of a decimal, scaled to exactly `k` digits:
/// truncated when longer, padded with zeros when shorter.
pub open spec fn frac_scaled(f: Seq<char>, k: nat) -> int {
    if f.len() >= k {
        dec_val(f.subrange(0, k as int))
    } else {
        dec_val(f + Seq::new((k - f.len()) as nat, |i: int| '0'))
    }
}

/// The value of the decimal numeral `s`, scaled by ten to the `k`-th
/// power (its fractional part truncated past `k` digits).
pub open spec fn scaled_val(s: Seq<char>, k: nat) -> int {
    let di = first_idx(s, '.');
    if di == -1 {
        dec_val(s) * pow10(k)
    } else {
        dec_val(s.subrange(0, di)) * pow10(k) + frac_scaled(s.subrange(di + 1, s.len() as int), k)
    }
}

/// The scaled fractional value is below ten to the scale.
proof fn lemma_frac_scaled_bounds(f: Seq<char>, k: nat)
    requires
        all_digits(f),
    ensures
        0 <= frac_scaled(f, k) < pow10(k),
{
    if f.len() >= k {
        let p = f.subrange(0, k as int);
        assert(all_digits(p));
        lemma_dec_val_nonneg(p);
        lemma_dec_val_upper(p);
    } else {
        let z = Seq::new((k - f.len()) as nat, |i: int| '0');
        let w = f + z;
        assert(all_digits(w)) by {
            assert(forall|i: int|
                0 <= i < f.len() ==> #[trigger] w[i] == f[i]);
            assert(forall|i: int|
                f.len() <= i < w.len() ==> #[trigger] w[i] == '0');
        }
        lemma_dec_val_nonneg(w);
        lemma_dec_val_upper(w);
        assert(w.len() == k);
    }
}

/// Reads `s` as a decimal numeral scaled by ten to the `scale`-th power.
/// Returns `None` when `s` is not a plain decimal or the scaled value
/// does not fit in `u64`.
pub fn parse_scaled(s: &str, scale: u32) -> (r: Option<u64>)
    requires
        scale <= 9,
    ensures
        r is Some <==> (is_decimal(s@) && scaled_val(s@, scale as nat) <= u64::MAX),
        r is Some ==> r->0 == scaled_val(s@, scale as nat),
{
    let n = s.unicode_len();
    if n == 0 {
        return None;
    }
    let pow = pow10_u64(scale);
    proof {
        lemma_pow10_pos(scale as nat);
    }
    match find_first(s, '.') {
        None => {
            proof {
                assert(s@.subrange(0, n as int) =~= s@);
            }
            match digits_val_range(s, 0, n) {
                None => {
                    proof {
                        if is_decimal(s@) {
                            // the whole string is digits, so the range
                            // reader can only have overflowed
                            lemma_dec_val_nonneg(s@);
                            assert(dec_val(s@) * pow10(scale as nat) > u64::MAX)
                                by (nonlinear_arith)
                                requires
                                    dec_val(s@) > u64::MAX,
                                    pow10(scale as nat) >= 1,
                            ;
                        }
                    }
                    None
                },
                Some(v) => {
                    if v > u64::MAX / pow {
                        proof {
                            assert(v * pow > u64::MAX) by (nonlinear_arith)
                                requires
                                    v > u64::MAX / pow,
                                    pow >= 1,
                            ;
                        }
                        None
                    } else {
                        proof {
                            assert(v * pow <= u64::MAX) by (nonlinear_arith)
                                requires
                                    v <= u64::MAX / pow,
                                    0 <= v,
                                    pow >= 1,
                            ;
                        }
                        Some(v * pow)
                    }
                },
            }
        },
        Some(di) => {
            if n == 1 {
                return None;
            }
            let ghost ip = s@.subrange(0, di as int);
            let ghost fp = s@.subrange(di + 1, n as int);
            if !all_digits_range(s, di + 1, n) {
                return None;
            }
            // fractional digits, truncated to the scale
            let frac_len: usize = n - di - 1;
            let m: usize = if frac_len < scale as usize {
                frac_len
            } else {
                scale as usize
            };
            let fv0 = match digits_val_range(s, di + 1, di + 1 + m) {
                Some(v) => v,
                None => {
                    proof {
                        assert(s@.subrange(di + 1, di + 1 + m) =~= fp.subrange(0, m as int));
                        assert(all_digits(fp.subrange(0, m as int)));
                        lemma_dec_val_upper(fp.subrange(0, m as int));
                        lemma_pow10_le(m as nat, 9);
                        reveal_with_fuel(pow10, 11);
                    }
                    return None;
                },
            };
            proof {
                assert(s@.subrange(di + 1, di + 1 + m) =~= fp.subrange(0, m as int));
            }
            let rest_pow = pow10_u64(scale - m as u32);
            let ghost fsc = frac_scaled(fp, scale as nat);
            proof {
                if frac_len >= scale {
                    assert(fp.subrange(0, m as int) =~= fp.subrange(0, scale as int));
                    assert(fsc == dec_val(fp.subrange(0, scale as int)));
                    assert(rest_pow == 1);
                    assert(fv0 * rest_pow == fsc) by (nonlinear_arith)
                        requires
                            rest_pow == 1,
                            fv0 == fsc,
                    ;
                } else {
                    let zlen = (scale as nat - fp.len()) as nat;
                    let z = Seq::new(zlen, |i: int| '0');
                    lemma_dec_val_concat(fp, z);
                    lemma_dec_val_zeros(zlen);
                    assert(fp.subrange(0, m as int) =~= fp);
                    assert(fp + Seq::new((scale as nat - fp.len()) as nat, |i: int| '0') =~= fp
                        + z);
                    assert(fsc == dec_val(fp + z));
                    assert(fsc == dec_val(fp) * pow10(zlen) + dec_val(z));
                    assert(dec_val(z) == 0);
                    assert(fv0 == dec_val(fp));
                    assert(rest_pow == pow10(zlen));
                    assert(fv0 * rest_pow == fsc);
                }
                lemma_frac_scaled_bounds(fp, scale as nat);
                lemma_dec_val_nonneg(fp.subrange(0, m as int));
                reveal_with_fuel(pow10, 11);
                lemma_pow10_le(scale as nat, 9);
            }
            let fv: u64 = fv0 * rest_pow;
            match digits_val_range(s, 0, di) {
                None => {
                    proof {
                        if is_decimal(s@) {
                            lemma_dec_val_nonneg(ip);
                            assert(dec_val(ip) * pow10(scale as nat) > u64::MAX)
                                by (nonlinear_arith)
                                requires
                                    dec_val(ip) > u64::MAX,
                                    pow10(scale as nat) >= 1,
                            ;
                        }
                    }
                    None
                },
                Some(iv) => {
                    if iv > (u64::MAX - fv) / pow {
                        proof {
                            assert(iv * pow + fv > u64::MAX) by (nonlinear_arith)
                                requires
                                    iv > (u64::MAX - fv) / (pow as int),
                                    0 <= fv <= u64::MAX,
                                    pow >= 1,
                            ;
                        }
                        None
                    } else {
                        proof {
                            assert(iv * pow + fv <= u64::MAX) by (nonlinear_arith)
                                requires
                                    iv <= (u64::MAX - fv) / (pow as int),
                                    0 <= iv,
                                    0 <= fv <= u64::MAX,
                                    pow >= 1,
                            ;
                        }
                        Some(iv * pow + fv)
                    }
                },
            }
        },
    }
}

/// Formats `n` as its base-10 numeral.
pub fn u64_to_string(n: u64) -> (r: String)
    ensures
        r@ == dec_str(n as nat),
    decreases n,
{
    if n < 10 {
        let r = String::from_str(digit_str(n));
        proof {
            assert(r@ =~= dec_str(n as nat));
        }
        r
    } else {
        let mut r = u64_to_string(n / 10);
        r.append(digit_str(n % 10));
        proof {
            assert(r@ =~= dec_str(n as nat));
        }
        r
    }
}

} // verus!
