//! Writing Bencode, and the laws that tie writing to reading.
//!
//! An integer is written as `i`, its decimal text, `e`; a byte string as the
//! decimal text of its length, `:`, and the bytes. Both forms are canonical:
//! every value has one text, and that text reads back as the value.

use crate::bencode::integer::lemma_digit_run_split;
use crate::bencode::integer::spec_all_digits;
use crate::bencode::integer::spec_decimal;
use crate::bencode::integer::spec_decimal_value;
use crate::bencode::integer::spec_digit_run;
use crate::bencode::integer::spec_digits;
use crate::bencode::integer::spec_digits_value;
use crate::bencode::integer::spec_integer_text;
use crate::bencode::integer::spec_is_decimal;
use crate::bencode::integer::spec_is_digit;
use crate::bencode::integer::BencodeInteger;
use crate::bencode::number::lemma_digits_value_positive;
use crate::bencode::number::push_digits;
use vstd::prelude::*;

verus! {

/// The Bencode of an integer.
pub open spec fn spec_encode_integer(n: int) -> Seq<u8> {
    seq![0x69u8] + spec_decimal(n) + seq![0x65u8]
}

/// The Bencode of a byte string.
pub open spec fn spec_encode_bytes(bytes: Seq<u8>) -> Seq<u8> {
    spec_digits(bytes.len()) + seq![0x3au8] + bytes
}

/// Write an integer behind what `out` holds.
pub fn encode_integer<N: BencodeInteger>(n: &N, out: &mut Vec<u8>)
    ensures
        final(out)@ == old(out)@ + spec_encode_integer(n.spec_value()),
{
    out.push(0x69);
    let mut text = n.to_decimal();
    out.append(&mut text);
    out.push(0x65);
    assert(final(out)@ =~= old(out)@ + spec_encode_integer(n.spec_value()));
}

/// Write a byte string behind what `out` holds.
pub fn encode_bytes(bytes: &[u8], out: &mut Vec<u8>)
    ensures
        final(out)@ == old(out)@ + spec_encode_bytes(bytes@),
{
    push_digits(bytes.len() as u128, out);
    out.push(0x3a);
    out.extend_from_slice(bytes);
    assert(final(out)@ =~= old(out)@ + spec_encode_bytes(bytes@));
}

/// The digits of a number are digits, at least one, and begin with `0` only
/// where the number is zero.
pub proof fn lemma_digits_shape(n: nat)
    ensures
        spec_digits(n).len() >= 1,
        spec_all_digits(spec_digits(n)),
        n > 0 ==> spec_digits(n)[0] != 0x30,
        n == 0 ==> spec_digits(n) == seq![0x30u8],
    decreases n,
{
    if n >= 10 {
        lemma_digits_shape(n / 10);
        let front = spec_digits(n / 10);
        let all = front.push((0x30 + n % 10) as u8);
        assert forall|i: int| 0 <= i < all.len() implies spec_is_digit(#[trigger] all[i]) by {
            if i < front.len() {
                assert(all[i] == front[i]);
            }
        }
        assert(all[0] == front[0]);
    }
}

/// The digits of a number stand for that number.
pub proof fn lemma_digits_value(n: nat)
    ensures
        spec_digits_value(spec_digits(n)) == n,
    decreases n,
{
    if n >= 10 {
        lemma_digits_value(n / 10);
        let front = spec_digits(n / 10);
        let all = front.push((0x30 + n % 10) as u8);
        assert(all.drop_last() =~= front);
    } else {
        let all = seq![(0x30 + n) as u8];
        assert(all.drop_last() =~= Seq::<u8>::empty());
        assert(spec_digits_value(all.drop_last()) == 0);
    }
}

/// The decimal text of a number is a number as the grammar writes it, and
/// stands for that number.
pub proof fn lemma_decimal_value(n: int)
    ensures
        spec_is_decimal(spec_decimal(n)),
        spec_decimal_value(spec_decimal(n)) == n,
{
    if n < 0 {
        let m = (-n) as nat;
        lemma_digits_shape(m);
        lemma_digits_value(m);
        let text = seq![0x2du8] + spec_digits(m);
        assert(text.skip(1) =~= spec_digits(m));
        assert(text[1] == spec_digits(m)[0]);
    } else {
        lemma_digits_shape(n as nat);
        lemma_digits_value(n as nat);
        let text = spec_digits(n as nat);
        assert(spec_is_digit(text[0]));
    }
}

/// Digits without a leading zero are the digits of the number that they
/// stand for.
pub proof fn lemma_digits_canonical(s: Seq<u8>)
    requires
        s.len() > 0,
        spec_all_digits(s),
        s[0] == 0x30 ==> s.len() == 1,
    ensures
        spec_digits(spec_digits_value(s)) == s,
    decreases s.len(),
{
    let front = s.drop_last();
    assert(spec_is_digit(s.last()));
    if s.len() == 1 {
        assert(front =~= Seq::<u8>::empty());
        assert(spec_digits_value(front) == 0);
        assert(spec_digits(spec_digits_value(s)) =~= s);
    } else {
        assert(spec_all_digits(front)) by {
            assert forall|i: int| 0 <= i < front.len() implies spec_is_digit(
                #[trigger] front[i],
            ) by {
                assert(front[i] == s[i]);
            }
        }
        assert(front[0] == s[0]);
        lemma_digits_value_positive(front);
        lemma_digits_canonical(front);
        let v = spec_digits_value(s);
        let d = s.last() - 0x30;
        assert(v == spec_digits_value(front) * 10 + d);
        assert(v / 10 == spec_digits_value(front) && v % 10 == d) by (nonlinear_arith)
            requires
                v == spec_digits_value(front) * 10 + d,
                0 <= d < 10,
        ;
        assert(spec_digits(v) =~= s);
    }
}

/// A number as the grammar writes it is the decimal text of the number that
/// it stands for: no number has two texts.
pub proof fn lemma_decimal_canonical(text: Seq<u8>)
    requires
        spec_is_decimal(text),
    ensures
        spec_decimal(spec_decimal_value(text)) == text,
{
    if text[0] == 0x2d {
        let digits = text.skip(1);
        assert(digits[0] == text[1]);
        lemma_digits_value_positive(digits);
        lemma_digits_canonical(digits);
        assert(seq![0x2du8] + digits =~= text);
    } else {
        lemma_digits_canonical(text);
    }
}

/// Reading what was written for an integer gives the integer back, and the
/// input that followed it: for every number, of whatever size.
pub proof fn lemma_integer_round_trip(n: int, rest: Seq<u8>)
    ensures
        spec_integer_text(spec_encode_integer(n) + rest) == Ok::<
            (Seq<u8>, Seq<u8>),
            Seq<crate::bencode::error::BertErrorView>,
        >((rest, spec_decimal(n))),
        spec_decimal_value(spec_decimal(n)) == n,
{
    lemma_decimal_value(n);
    let text = spec_decimal(n);
    let input = spec_encode_integer(n) + rest;
    let body = input.subrange(1, input.len() as int);
    assert(body =~= text + seq![0x65u8] + rest);
    let negative = n < 0;
    let start: int = if negative {
        1
    } else {
        0
    };
    assert(forall|i: int| 0 <= i < text.len() ==> body[i] == text[i]);
    assert(body[text.len() as int] == 0x65);
    if negative {
        lemma_digits_shape((-n) as nat);
        assert(forall|i: int| 1 <= i < text.len() ==> text[i] == spec_digits((-n) as nat)[i - 1]);
        assert(text[1] != 0x30);
    } else {
        lemma_digits_shape(n as nat);
        assert(spec_is_digit(text[0]));
        if text.len() >= 2 {
            assert(text[0] != 0x30);
        }
    }
    assert forall|i: int| start <= i < text.len() implies spec_is_digit(#[trigger] body[i]) by {
        if negative {
            assert(text.skip(1)[i - 1] == text[i]);
        }
    }
    lemma_digit_run_split(body, start, text.len() as int);
    assert(spec_digit_run(body, text.len() as int) == 0);
    let end = text.len() as int;
    let after = body.subrange(end, body.len() as int);
    assert(after[0] == 0x65);
    assert(after.subrange(1, after.len() as int) =~= rest);
    assert(body.subrange(0, end) =~= text);
}

} // verus!
