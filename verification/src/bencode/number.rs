//! The number types that a Bencoded integer can be read into.
//!
//! The fixed-width types refuse what is outside their range, with the fault
//! that the standard library names for such a text. An unsigned type refuses
//! a negative number as an invalid digit, which is what its sign is to it.

use crate::bencode::error::IntegerFault;
use crate::bencode::error::ParseIntegerDelegate;
use crate::bencode::integer::spec_all_digits;
use crate::bencode::integer::spec_decimal;
use crate::bencode::integer::spec_decimal_value;
use crate::bencode::integer::spec_digits;
use crate::bencode::integer::spec_digits_value;
use crate::bencode::integer::spec_is_decimal;
use crate::bencode::integer::spec_is_digit;
use crate::bencode::integer::BencodeInteger;
use vstd::prelude::*;
use vstd::slice::slice_subrange;

verus! {

/// The digits up to any place stand for no more than all the digits do.
pub proof fn lemma_digits_value_prefix(s: Seq<u8>, k: int)
    requires
        0 <= k <= s.len(),
        spec_all_digits(s),
    ensures
        spec_digits_value(s.take(k)) <= spec_digits_value(s),
    decreases s.len() - k,
{
    if k < s.len() {
        lemma_digits_value_prefix(s, k + 1);
        assert(s.take(k + 1).drop_last() =~= s.take(k));
        assert(spec_is_digit(s[k]));
        assert(s.take(k + 1).last() == s[k]);
    } else {
        assert(s.take(k) =~= s);
    }
}

/// Digits that do not begin with `0` stand for a number above zero.
pub proof fn lemma_digits_value_positive(s: Seq<u8>)
    requires
        s.len() > 0,
        spec_all_digits(s),
        s[0] != 0x30,
    ensures
        spec_digits_value(s) > 0,
{
    lemma_digits_value_prefix(s, 1);
    assert(s.take(1).drop_last() =~= Seq::<u8>::empty());
    assert(spec_is_digit(s[0]));
    assert(s.take(1).last() == s[0]);
    assert(spec_digits_value(s.take(1)) == s[0] - 0x30) by {
        assert(spec_digits_value(s.take(1).drop_last()) == 0);
    }
}

/// The number that digits stand for, where it is at most `i128::MAX`.
pub fn digits_to_i128(digits: &[u8]) -> (r: Option<i128>)
    requires
        spec_all_digits(digits@),
    ensures
        match r {
            Some(v) => v == spec_digits_value(digits@),
            None => spec_digits_value(digits@) > i128::MAX,
        },
{
    let mut acc: i128 = 0;
    let mut i: usize = 0;
    assert(digits@.take(0) =~= Seq::<u8>::empty());
    while i < digits.len()
        invariant
            i <= digits@.len(),
            spec_all_digits(digits@),
            0 <= acc,
            acc == spec_digits_value(digits@.take(i as int)),
        decreases digits@.len() - i,
    {
        let d: i128 = (digits[i] - 0x30) as i128;
        proof {
            assert(spec_is_digit(digits@[i as int]));
            assert(digits@.take(i + 1).drop_last() =~= digits@.take(i as int));
            assert(digits@.take(i + 1).last() == digits@[i as int]);
            lemma_digits_value_prefix(digits@, i + 1);
        }
        if acc > (i128::MAX - d) / 10 {
            return None;
        }
        acc = acc * 10 + d;
        i += 1;
    }
    assert(digits@.take(i as int) =~= digits@);
    Some(acc)
}

/// Read a decimal text into the range from `min` to `max`; what lies below
/// the range is refused with the fault `below`, what lies above it as a
/// positive overflow.
pub fn decimal_in_range(text: &[u8], min: i128, max: i128, below: IntegerFault) -> (r: Result<
    i128,
    ParseIntegerDelegate,
>)
    requires
        spec_is_decimal(text@),
        -i128::MAX <= min <= 0 <= max,
    ensures
        min <= spec_decimal_value(text@) <= max ==> r == Ok::<i128, ParseIntegerDelegate>(
            spec_decimal_value(text@) as i128,
        ),
        spec_decimal_value(text@) < min ==> r == Err::<i128, ParseIntegerDelegate>(
            ParseIntegerDelegate(below),
        ),
        spec_decimal_value(text@) > max ==> r == Err::<i128, ParseIntegerDelegate>(
            ParseIntegerDelegate(IntegerFault::PosOverflow),
        ),
{
    let negative = text[0] == 0x2d;
    if negative {
        let digits = slice_subrange(text, 1, text.len());
        proof {
            assert(digits@ =~= text@.skip(1));
            lemma_digits_value_positive(digits@);
        }
        match digits_to_i128(digits) {
            None => Err(ParseIntegerDelegate(below)),
            Some(magnitude) => {
                let value: i128 = -magnitude;
                if value < min {
                    Err(ParseIntegerDelegate(below))
                } else {
                    Ok(value)
                }
            },
        }
    } else {
        match digits_to_i128(text) {
            None => Err(ParseIntegerDelegate(IntegerFault::PosOverflow)),
            Some(value) => {
                if value > max {
                    Err(ParseIntegerDelegate(IntegerFault::PosOverflow))
                } else {
                    Ok(value)
                }
            },
        }
    }
}

/// Write the digits of `n` behind what `out` holds.
pub fn push_digits(n: u128, out: &mut Vec<u8>)
    ensures
        final(out)@ == old(out)@ + spec_digits(n as nat),
    decreases n,
{
    if n >= 10 {
        push_digits(n / 10, out);
        out.push(0x30 + (n % 10) as u8);
        assert(final(out)@ =~= old(out)@ + spec_digits(n as nat));
    } else {
        out.push(0x30 + n as u8);
        assert(final(out)@ =~= old(out)@ + spec_digits(n as nat));
    }
}

/// The decimal text of `value`.
pub fn i128_to_decimal(value: i128) -> (r: Vec<u8>)
    requires
        value > i128::MIN,
    ensures
        r@ == spec_decimal(value as int),
{
    let mut out: Vec<u8> = Vec::new();
    if value < 0 {
        out.push(0x2d);
        push_digits((-value) as u128, &mut out);
    } else {
        push_digits(value as u128, &mut out);
    }
    assert(out@ =~= spec_decimal(value as int));
    out
}

impl BencodeInteger for u8 {
    open spec fn spec_value(&self) -> int {
        *self as int
    }

    open spec fn spec_fits(n: int) -> bool {
        0 <= n <= u8::MAX
    }

    open spec fn spec_fault(n: int) -> IntegerFault {
        if n < 0 {
            IntegerFault::InvalidDigit
        } else {
            IntegerFault::PosOverflow
        }
    }

    fn from_decimal(text: &[u8]) -> (r: Result<Self, ParseIntegerDelegate>) {
        match decimal_in_range(text, 0, u8::MAX as i128, IntegerFault::InvalidDigit) {
            Ok(value) => Ok(value as u8),
            Err(e) => Err(e),
        }
    }

    fn to_decimal(&self) -> (r: Vec<u8>) {
        i128_to_decimal(*self as i128)
    }
}

impl BencodeInteger for u32 {
    open spec fn spec_value(&self) -> int {
        *self as int
    }

    open spec fn spec_fits(n: int) -> bool {
        0 <= n <= u32::MAX
    }

    open spec fn spec_fault(n: int) -> IntegerFault {
        if n < 0 {
            IntegerFault::InvalidDigit
        } else {
            IntegerFault::PosOverflow
        }
    }

    fn from_decimal(text: &[u8]) -> (r: Result<Self, ParseIntegerDelegate>) {
        match decimal_in_range(text, 0, u32::MAX as i128, IntegerFault::InvalidDigit) {
            Ok(value) => Ok(value as u32),
            Err(e) => Err(e),
        }
    }

    fn to_decimal(&self) -> (r: Vec<u8>) {
        i128_to_decimal(*self as i128)
    }
}

impl BencodeInteger for u64 {
    open spec fn spec_value(&self) -> int {
        *self as int
    }

    open spec fn spec_fits(n: int) -> bool {
        0 <= n <= u64::MAX
    }

    open spec fn spec_fault(n: int) -> IntegerFault {
        if n < 0 {
            IntegerFault::InvalidDigit
        } else {
            IntegerFault::PosOverflow
        }
    }

    fn from_decimal(text: &[u8]) -> (r: Result<Self, ParseIntegerDelegate>) {
        match decimal_in_range(text, 0, u64::MAX as i128, IntegerFault::InvalidDigit) {
            Ok(value) => Ok(value as u64),
            Err(e) => Err(e),
        }
    }

    fn to_decimal(&self) -> (r: Vec<u8>) {
        i128_to_decimal(*self as i128)
    }
}

impl BencodeInteger for usize {
    open spec fn spec_value(&self) -> int {
        *self as int
    }

    open spec fn spec_fits(n: int) -> bool {
        0 <= n <= usize::MAX
    }

    open spec fn spec_fault(n: int) -> IntegerFault {
        if n < 0 {
            IntegerFault::InvalidDigit
        } else {
            IntegerFault::PosOverflow
        }
    }

    fn from_decimal(text: &[u8]) -> (r: Result<Self, ParseIntegerDelegate>) {
        match decimal_in_range(text, 0, usize::MAX as i128, IntegerFault::InvalidDigit) {
            Ok(value) => Ok(value as usize),
            Err(e) => Err(e),
        }
    }

    fn to_decimal(&self) -> (r: Vec<u8>) {
        i128_to_decimal(*self as i128)
    }
}

impl BencodeInteger for i32 {
    open spec fn spec_value(&self) -> int {
        *self as int
    }

    open spec fn spec_fits(n: int) -> bool {
        i32::MIN <= n <= i32::MAX
    }

    open spec fn spec_fault(n: int) -> IntegerFault {
        if n < 0 {
            IntegerFault::NegOverflow
        } else {
            IntegerFault::PosOverflow
        }
    }

    fn from_decimal(text: &[u8]) -> (r: Result<Self, ParseIntegerDelegate>) {
        match decimal_in_range(text, i32::MIN as i128, i32::MAX as i128, IntegerFault::NegOverflow) {
            Ok(value) => Ok(value as i32),
            Err(e) => Err(e),
        }
    }

    fn to_decimal(&self) -> (r: Vec<u8>) {
        i128_to_decimal(*self as i128)
    }
}

impl BencodeInteger for i64 {
    open spec fn spec_value(&self) -> int {
        *self as int
    }

    open spec fn spec_fits(n: int) -> bool {
        i64::MIN <= n <= i64::MAX
    }

    open spec fn spec_fault(n: int) -> IntegerFault {
        if n < 0 {
            IntegerFault::NegOverflow
        } else {
            IntegerFault::PosOverflow
        }
    }

    fn from_decimal(text: &[u8]) -> (r: Result<Self, ParseIntegerDelegate>) {
        match decimal_in_range(text, i64::MIN as i128, i64::MAX as i128, IntegerFault::NegOverflow) {
            Ok(value) => Ok(value as i64),
            Err(e) => Err(e),
        }
    }

    fn to_decimal(&self) -> (r: Vec<u8>) {
        i128_to_decimal(*self as i128)
    }
}

} // verus!
