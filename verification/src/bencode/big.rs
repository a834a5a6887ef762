//! Integers without a bound, read into the big integers of `num_bigint`.
//!
//! Verus does not see inside a big integer. The two functions `bigint_value`
//! and `biguint_value` name the number that one stands for, and the contracts
//! of the calls into `num_bigint` are stated over them and assumed.

use crate::bencode::error::IntegerFault;
use crate::bencode::error::ParseIntegerDelegate;
use crate::bencode::integer::spec_decimal;
use crate::bencode::integer::spec_decimal_value;
use crate::bencode::integer::spec_is_decimal;
use crate::bencode::integer::BencodeInteger;
use num_bigint::BigInt;
use num_bigint::BigUint;
use vstd::prelude::*;

verus! {

/// `num_bigint::BigInt`, of which Verus sees nothing but that it is a type.
#[verifier::external_type_specification]
#[verifier::external_body]
pub struct ExBigInt(num_bigint::BigInt);

/// `num_bigint::BigUint`, of which Verus sees nothing but that it is a type.
#[verifier::external_type_specification]
#[verifier::external_body]
pub struct ExBigUint(num_bigint::BigUint);

/// The number that a `BigInt` stands for.
pub uninterp spec fn bigint_value(n: BigInt) -> int;

/// The number that a `BigUint` stands for.
pub uninterp spec fn biguint_value(n: BigUint) -> int;

/// `BigInt::parse_bytes` in radix ten. Assumed: a text of digits, or of `-`
/// and digits, always parses, and the result stands for the number that the
/// text writes in decimal.
#[verifier::external_body]
fn bigint_parse_decimal(text: &[u8]) -> (r: Option<BigInt>)
    requires
        spec_is_decimal(text@),
    ensures
        r is Some,
        bigint_value(r.unwrap()) == spec_decimal_value(text@),
{
    BigInt::parse_bytes(text, 10)
}

/// `BigInt::to_str_radix` in radix ten. Assumed: the result is the decimal
/// text of the number, `-` before the digits of a negative one, without a
/// leading zero.
#[verifier::external_body]
fn bigint_to_decimal(n: &BigInt) -> (r: Vec<u8>)
    ensures
        r@ == spec_decimal(bigint_value(*n)),
{
    n.to_str_radix(10).into_bytes()
}

/// `BigUint::parse_bytes` in radix ten. Assumed: a text of digits always
/// parses, to the number that it writes in decimal; a text that begins with
/// `-` never does.
#[verifier::external_body]
fn biguint_parse_decimal(text: &[u8]) -> (r: Option<BigUint>)
    requires
        spec_is_decimal(text@),
    ensures
        text@[0] == 0x2d ==> r is None,
        text@[0] != 0x2d ==> r is Some,
        text@[0] != 0x2d ==> biguint_value(r.unwrap()) == spec_decimal_value(text@),
{
    BigUint::parse_bytes(text, 10)
}

/// `BigUint::to_str_radix` in radix ten. Assumed: the result is the decimal
/// text of the number, without a leading zero.
#[verifier::external_body]
fn biguint_to_decimal(n: &BigUint) -> (r: Vec<u8>)
    ensures
        r@ == spec_decimal(biguint_value(*n)),
{
    n.to_str_radix(10).into_bytes()
}

impl BencodeInteger for BigInt {
    open spec fn spec_value(&self) -> int {
        bigint_value(*self)
    }

    open spec fn spec_fits(n: int) -> bool {
        true
    }

    open spec fn spec_fault(n: int) -> IntegerFault {
        IntegerFault::InvalidDigit
    }

    fn from_decimal(text: &[u8]) -> (r: Result<Self, ParseIntegerDelegate>) {
        match bigint_parse_decimal(text) {
            Some(n) => Ok(n),
            None => Err(ParseIntegerDelegate(IntegerFault::InvalidDigit)),
        }
    }

    fn to_decimal(&self) -> (r: Vec<u8>) {
        bigint_to_decimal(self)
    }
}

impl BencodeInteger for BigUint {
    open spec fn spec_value(&self) -> int {
        biguint_value(*self)
    }

    open spec fn spec_fits(n: int) -> bool {
        0 <= n
    }

    open spec fn spec_fault(n: int) -> IntegerFault {
        IntegerFault::InvalidDigit
    }

    fn from_decimal(text: &[u8]) -> (r: Result<Self, ParseIntegerDelegate>) {
        proof {
            if text@[0] == 0x2d {
                crate::bencode::number::lemma_digits_value_positive(text@.skip(1));
            }
        }
        match biguint_parse_decimal(text) {
            Some(n) => Ok(n),
            None => Err(ParseIntegerDelegate(IntegerFault::InvalidDigit)),
        }
    }

    fn to_decimal(&self) -> (r: Vec<u8>) {
        biguint_to_decimal(self)
    }
}

} // verus!
