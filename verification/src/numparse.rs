//! Numeric operand parsing: unsigned and signed decimal integers, and
//! signed decimal fractions read as fixed-point values in hundredths.
//! Directive operands that fail these grammars are malformed; the field
//! parsers turn that into a `MalformedOperand` diagnostic.

use vstd::prelude::*;
use crate::chars::count_leading;
use crate::chars::lemma_count_leading_at;

verus! {

/// A decimal digit.
pub open spec fn is_digit(c: char) -> bool {
    '0' <= c && c <= '9'
}

/// Executable form of `is_digit`.
pub fn is_digit_exec(c: char) -> (r: bool)
    ensures
        r == is_digit(c),
{
    '0' <= c && c <= '9'
}

/// The value of one decimal digit character.
pub open spec fn dv(c: char) -> int {
    (c as int) - ('0' as int)
}

/// Whether every character of `s` is a decimal digit.
pub open spec fn all_digits(s: Seq<char>) -> bool {
    forall|i: int| 0 <= i < s.len() ==> is_digit(#[trigger] s[i])
}

/// The value of a string of decimal digits, most significant first.
pub open spec fn digits_val(s: Seq<char>) -> int
    decreases s.len(),
{
    if s.len() == 0 {
        0int
    } else {
        digits_val(s.drop_last()) * 10 + dv(s.last())
    }
}

/// A digit string has a non-negative value, and its value only grows when
/// more digits are appended on the right.
pub proof fn lemma_digits_val_nonneg(s: Seq<char>)
    requires
        all_digits(s),
    ensures
        digits_val(s) >= 0,
    decreases s.len(),
{
    if s.len() > 0 {
        assert(all_digits(s.drop_last()));
        lemma_digits_val_nonneg(s.drop_last());
        assert(digits_val(s.drop_last()) * 10 >= 0) by (nonlinear_arith)
            requires
                digits_val(s.drop_last()) >= 0,
        ;
    }
}

/// Extending a digit prefix by one digit multiplies its value by ten and
/// adds the digit.
pub proof fn lemma_digits_val_step(s: Seq<char>, i: int)
    requires
        0 <= i < s.len(),
    ensures
        digits_val(s.take(i + 1)) == digits_val(s.take(i)) * 10 + dv(s[i]),
{
    assert(s.take(i + 1).drop_last() =~= s.take(i));
    assert(s.take(i + 1).last() == s[i]);
}

/// A digit prefix never has a larger value than the whole digit string.
pub proof fn lemma_digits_val_prefix_le(s: Seq<char>, i: int)
    requires
        all_digits(s),
        0 <= i <= s.len(),
    ensures
        digits_val(s.take(i)) <= digits_val(s),
    decreases s.len() - i,
{
    if i < s.len() {
        lemma_digits_val_step(s, i);
        assert(all_digits(s.take(i)));
        lemma_digits_val_nonneg(s.take(i));
        assert(digits_val(s.take(i)) * 10 >= digits_val(s.take(i))) by (nonlinear_arith)
            requires
                digits_val(s.take(i)) >= 0,
        ;
        lemma_digits_val_prefix_le(s, i + 1);
        assert(s.take(s.len() as int) =~= s);
    } else {
        assert(s.take(s.len() as int) =~= s);
    }
}

/// Reads the digit run `v[from .. to]` as a `u64`, or `None` when its
/// value exceeds `u64::MAX`.
pub fn parse_digit_run(v: &[char], from: usize, to: usize) -> (r: Option<u64>)
    requires
        from <= to <= v@.len(),
        all_digits(v@.subrange(from as int, to as int)),
    ensures
        r is Some <==> digits_val(v@.subrange(from as int, to as int)) <= u64::MAX,
        r matches Some(n) ==> n == digits_val(v@.subrange(from as int, to as int)),
{
    let ghost s = v@.subrange(from as int, to as int);
    let mut acc: u64 = 0;
    let mut i: usize = from;
    while i < to
        invariant
            from <= i <= to <= v@.len(),
            s == v@.subrange(from as int, to as int),
            all_digits(s),
            acc == digits_val(s.take(i as int - from as int)),
        decreases to - i,
    {
        let c = v[i];
        proof {
            assert(s[i as int - from as int] == v@[i as int]);
        }
        let d: u64 = (c as u8 - '0' as u8) as u64;
        proof {
            assert(d == dv(s[i as int - from as int]));
            lemma_digits_val_step(s, i as int - from as int);
        }
        if acc > (u64::MAX - d) / 10 {
            proof {
                assert(acc * 10 + d > u64::MAX) by (nonlinear_arith)
                    requires
                        acc > (u64::MAX - d) / 10,
                        0 <= d <= 9,
                ;
                lemma_digits_val_prefix_le(s, i as int - from as int + 1);
            }
            return None;
        }
        proof {
            assert(acc * 10 + d <= u64::MAX) by (nonlinear_arith)
                requires
                    acc <= (u64::MAX - d) / 10,
                    0 <= d <= 9,
            ;
        }
        acc = acc * 10 + d;
        i = i + 1;
    }
    proof {
        assert(s.take(to as int - from as int) =~= s);
    }
    Some(acc)
}

/// Splits an optional leading sign off an operand; the flag says whether
/// the value is negated.
pub open spec fn sign_split(s: Seq<char>) -> (bool, Seq<char>) {
    if s.len() > 0 && s[0] == '-' {
        (true, s.drop_first())
    } else if s.len() > 0 && s[0] == '+' {
        (false, s.drop_first())
    } else {
        (false, s)
    }
}

/// An unsigned decimal integer operand: one or more digits and nothing
/// else, with a value that fits in `u64`.
pub open spec fn parse_uint_spec(s: Seq<char>) -> Option<u64> {
    if s.len() > 0 && all_digits(s) && digits_val(s) <= u64::MAX {
        Some(digits_val(s) as u64)
    } else {
        None
    }
}

/// Executable form of `parse_uint_spec`.
pub fn parse_uint(v: &[char]) -> (r: Option<u64>)
    ensures
        r == parse_uint_spec(v@),
{
    let n = count_digits(v, 0);
    proof {
        assert(v@.subrange(0, v@.len() as int) =~= v@);
    }
    if v.len() == 0 || n != v.len() {
        proof {
            if v.len() > 0 && all_digits(v@) {
                lemma_count_leading_at(v@.skip(0), |c: char| is_digit(c), v@.len() as int);
            }
        }
        return None;
    }
    parse_digit_run(v, 0, v.len())
}

/// The index of the first non-digit character at or after `from`.
pub fn count_digits(v: &[char], from: usize) -> (r: usize)
    requires
        from <= v@.len(),
    ensures
        from <= r <= v@.len(),
        r - from == count_leading(v@.skip(from as int), |c: char| is_digit(c)),
        forall|i: int| from <= i < r ==> is_digit(#[trigger] v@[i]),
        r < v@.len() ==> !is_digit(v@[r as int]),
{
    let mut i: usize = from;
    while i < v.len() && is_digit_exec(v[i])
        invariant
            from <= i <= v@.len(),
            forall|j: int| from <= j < i ==> is_digit(#[trigger] v@[j]),
        decreases v@.len() - i,
    {
        i = i + 1;
    }
    proof {
        let p = |c: char| is_digit(c);
        let t = v@.skip(from as int);
        assert(forall|j: int| 0 <= j < i - from ==> p(#[trigger] t[j]));
        lemma_count_leading_at(t, p, i as int - from as int);
    }
    i
}

/// A signed decimal integer operand: optional sign, then digits only,
/// with a value that fits in `i64`.
pub open spec fn parse_sint_spec(s: Seq<char>) -> Option<i64> {
    let (neg, t) = sign_split(s);
    if t.len() > 0 && all_digits(t) && digits_val(t) <= i64::MAX {
        Some((if neg {
            -digits_val(t)
        } else {
            digits_val(t)
        }) as i64)
    } else {
        None
    }
}

/// Executable form of `parse_sint_spec`.
pub fn parse_sint(v: &[char]) -> (r: Option<i64>)
    ensures
        r == parse_sint_spec(v@),
{
    let (neg, start): (bool, usize) = if v.len() > 0 && v[0] == '-' {
        (true, 1)
    } else if v.len() > 0 && v[0] == '+' {
        (false, 1)
    } else {
        (false, 0)
    };
    let ghost t = sign_split(v@).1;
    proof {
        assert(t =~= v@.subrange(start as int, v@.len() as int));
    }
    let n = count_digits(v, start);
    if start == v.len() || n != v.len() {
        proof {
            if t.len() > 0 && all_digits(t) {
                lemma_count_leading_at(v@.skip(start as int), |c: char| is_digit(c), t.len() as int);
            }
        }
        return None;
    }
    proof {
        assert(all_digits(t));
    }
    match parse_digit_run(v, start, v.len()) {
        None => {
            proof {
                lemma_digits_val_nonneg(t);
            }
            None
        },
        Some(m) => {
            if m > i64::MAX as u64 {
                None
            } else if neg {
                Some(-(m as i64))
            } else {
                Some(m as i64)
            }
        },
    }
}

/// The fractional contribution of a fraction-digit string, kept to two
/// places (hundredths); further digits are truncated toward zero.
pub open spec fn frac_val(f: Seq<char>) -> int {
    (if f.len() >= 1 {
        10 * dv(f[0])
    } else {
        0int
    }) + (if f.len() >= 2 {
        dv(f[1])
    } else {
        0int
    })
}

/// The shape of a signed decimal fraction after the sign: a non-empty
/// integer digit run, optionally followed by `.` and fraction digits.
pub open spec fn fixed_shape_ok(t: Seq<char>) -> bool {
    let il = count_leading(t, |c: char| is_digit(c));
    il >= 1 && (il == t.len() || (t[il] == '.' && all_digits(t.skip(il + 1))))
}

/// The value, in hundredths, of a well-shaped unsigned decimal fraction.
pub open spec fn fixed_mag(t: Seq<char>) -> int {
    let il = count_leading(t, |c: char| is_digit(c));
    let f = if il == t.len() {
        Seq::<char>::empty()
    } else {
        t.skip(il + 1)
    };
    digits_val(t.take(il)) * 100 + frac_val(f)
}

/// A signed decimal fraction operand read as a fixed-point value in
/// hundredths, truncated toward zero after two fraction digits; `None`
/// when the shape is wrong or the magnitude exceeds `i64::MAX` hundredths.
pub open spec fn parse_fixed100_spec(s: Seq<char>) -> Option<i64> {
    let (neg, t) = sign_split(s);
    if fixed_shape_ok(t) && fixed_mag(t) <= i64::MAX {
        Some((if neg {
            -fixed_mag(t)
        } else {
            fixed_mag(t)
        }) as i64)
    } else {
        None
    }
}

/// Executable form of `parse_fixed100_spec`.
pub fn parse_fixed100(v: &[char]) -> (r: Option<i64>)
    ensures
        r == parse_fixed100_spec(v@),
{
    let (neg, start): (bool, usize) = if v.len() > 0 && v[0] == '-' {
        (true, 1)
    } else if v.len() > 0 && v[0] == '+' {
        (false, 1)
    } else {
        (false, 0)
    };
    let ghost t = sign_split(v@).1;
    proof {
        assert(t =~= v@.subrange(start as int, v@.len() as int));
        assert(t.len() == v@.len() - start);
    }
    let il_end = count_digits(v, start);
    let ghost il = count_leading(t, |c: char| is_digit(c));
    proof {
        assert(v@.skip(start as int) =~= t);
        assert(il == il_end - start);
    }
    if il_end == start {
        return None;
    }
    // Fraction digits, if a point follows the integer part.
    let ghost f: Seq<char> = if il == t.len() {
        Seq::<char>::empty()
    } else {
        t.skip(il + 1)
    };
    let mut frac: u64 = 0;
    if il_end < v.len() {
        if v[il_end] != '.' {
            return None;
        }
        let fe = count_digits(v, il_end + 1);
        if fe != v.len() {
            proof {
                if fixed_shape_ok(t) {
                    assert(all_digits(f));
                    assert(v@.skip(il_end as int + 1) =~= f);
                    lemma_count_leading_at(v@.skip(il_end as int + 1), |c: char| is_digit(c),
                        f.len() as int);
                }
            }
            return None;
        }
        proof {
            assert(v@.skip(il_end as int + 1) =~= f);
            assert(all_digits(f));
        }
        if il_end + 1 < v.len() {
            frac = 10 * ((v[il_end + 1] as u8 - '0' as u8) as u64);
            proof {
                assert(v@[il_end as int + 1] == f[0]);
            }
            if il_end + 2 < v.len() {
                frac = frac + (v[il_end + 2] as u8 - '0' as u8) as u64;
                proof {
                    assert(v@[il_end as int + 2] == f[1]);
                }
            }
        }
    }
    proof {
        assert(frac == frac_val(f));
        assert(fixed_shape_ok(t));
        assert(t.take(il) =~= v@.subrange(start as int, il_end as int));
        assert(all_digits(t.take(il)));
    }
    match parse_digit_run(v, start, il_end) {
        None => {
            proof {
                lemma_digits_val_nonneg(t.take(il));
                assert(digits_val(t.take(il)) * 100 >= digits_val(t.take(il))) by (nonlinear_arith)
                    requires
                        digits_val(t.take(il)) >= 0,
                ;
            }
            None
        },
        Some(m) => {
            proof {
                lemma_digits_val_nonneg(t.take(il));
            }
            if m > ((i64::MAX as u64) - frac) / 100 {
                proof {
                    assert(m * 100 + frac > i64::MAX) by (nonlinear_arith)
                        requires
                            m > ((i64::MAX as u64) - frac) / 100,
                            0 <= frac <= 99,
                            m >= 0,
                    ;
                }
                None
            } else {
                proof {
                    assert(m * 100 + frac <= i64::MAX) by (nonlinear_arith)
                        requires
                            m <= ((i64::MAX as u64) - frac) / 100,
                            0 <= frac <= 99,
                            m >= 0,
                    ;
                }
                let mag: i64 = (m as i64) * 100 + (frac as i64);
                if neg {
                    Some(-mag)
                } else {
                    Some(mag)
                }
            }
        },
    }
}

} // verus!
