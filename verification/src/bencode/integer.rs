//! Bencoded integers of any size.
//!
//! An integer is `i`, decimal digits, `e`. It may be negative. It has no
//! leading zero, so `i042e` is refused, and so is `i-0e`; `i0e` is zero. The
//! grammar sets no bound on the number of digits: the number type that the
//! caller asks for decides what fits.

use crate::bencode::error::BertErrorKind;
use crate::bencode::error::BertErrorTrace;
use crate::bencode::error::BertErrorView;
use crate::bencode::error::ContextLabel;
use crate::bencode::error::GrammarKind;
use crate::bencode::error::IntegerFault;
use crate::bencode::error::ParseIntegerDelegate;
use crate::bencode::error::spec_context;
use crate::bencode::error::spec_frame;
use crate::bencode::error::spec_grammar;
use vstd::prelude::*;
use vstd::slice::slice_subrange;

verus! {

/// Whether `b` is one of `0` to `9`.
pub open spec fn spec_is_digit(b: u8) -> bool {
    0x30 <= b <= 0x39
}

/// The number of digits that stand in `s` from `from` on, without a gap.
pub open spec fn spec_digit_run(s: Seq<u8>, from: int) -> nat
    decreases s.len() - from,
{
    if 0 <= from < s.len() && spec_is_digit(s[from]) {
        1 + spec_digit_run(s, from + 1)
    } else {
        0
    }
}

/// Whether every byte of `s` is a digit.
pub open spec fn spec_all_digits(s: Seq<u8>) -> bool {
    forall|i: int| 0 <= i < s.len() ==> spec_is_digit(#[trigger] s[i])
}

/// The number that a run of digits stands for.
pub open spec fn spec_digits_value(s: Seq<u8>) -> nat
    decreases s.len(),
{
    if s.len() == 0 {
        0
    } else {
        (spec_digits_value(s.drop_last()) * 10 + (s.last() - 0x30)) as nat
    }
}

/// Whether `text` is a number as the grammar writes it: digits without a
/// leading zero, or `-` and such digits that are not zero.
pub open spec fn spec_is_decimal(text: Seq<u8>) -> bool {
    if text.len() > 0 && text[0] == 0x2d {
        text.len() > 1 && spec_all_digits(text.skip(1)) && text[1] != 0x30
    } else {
        text.len() > 0 && spec_all_digits(text) && (text[0] == 0x30 ==> text.len() == 1)
    }
}

/// The number that a decimal text stands for.
pub open spec fn spec_decimal_value(text: Seq<u8>) -> int {
    if text.len() > 0 && text[0] == 0x2d {
        -(spec_digits_value(text.skip(1)) as int)
    } else {
        spec_digits_value(text) as int
    }
}

/// The digits of a number, without a leading zero.
pub open spec fn spec_digits(n: nat) -> Seq<u8>
    decreases n,
{
    if n < 10 {
        seq![(0x30 + n) as u8]
    } else {
        spec_digits(n / 10).push((0x30 + n % 10) as u8)
    }
}

/// The decimal text of a number: `-` before the digits of a negative one.
pub open spec fn spec_decimal(n: int) -> Seq<u8> {
    if n < 0 {
        seq![0x2du8] + spec_digits((-n) as nat)
    } else {
        spec_digits(n as nat)
    }
}

/// The trail of a failure inside an integer: the frames of the failure, then
/// the frame of the integer itself.
pub open spec fn spec_integer_failed(input: Seq<u8>, inner: Seq<BertErrorView>) -> Seq<
    BertErrorView,
> {
    inner.push(spec_context(input, ContextLabel::Integer))
}

/// The trail of an integer whose text is well formed and is no value of the
/// number type that was asked for.
pub open spec fn spec_integer_refused(input: Seq<u8>, fault: IntegerFault) -> Seq<BertErrorView> {
    spec_integer_failed(
        input,
        seq![
            spec_grammar(input, GrammarKind::MapRes),
            spec_frame(input, BertErrorKind::ParseInt(ParseIntegerDelegate(fault))),
        ],
    )
}

/// What the grammar makes of `input`: the text of the number and the input
/// that follows the closing `e`, or the trail of the first rule that is
/// broken.
///
/// The rules, in the order in which they are held against the input: it
/// begins with `i`; what follows does not begin with `-0`; nor with `0` and
/// another digit; it is a run of digits, or `-` and a run of digits; then
/// comes `e`.
pub open spec fn spec_integer_text(input: Seq<u8>) -> Result<(Seq<u8>, Seq<u8>), Seq<BertErrorView>> {
    if input.len() == 0 || input[0] != 0x69 {
        Err(spec_integer_failed(input, seq![spec_grammar(input, GrammarKind::Tag)]))
    } else {
        let rest = input.subrange(1, input.len() as int);
        if rest.len() >= 2 && rest[0] == 0x2d && rest[1] == 0x30 {
            Err(
                spec_integer_failed(
                    input,
                    seq![
                        spec_grammar(rest, GrammarKind::Verify),
                        spec_context(rest, ContextLabel::IntegerNegativeZero),
                    ],
                ),
            )
        } else if rest.len() >= 2 && rest[0] == 0x30 && spec_is_digit(rest[1]) {
            Err(
                spec_integer_failed(
                    input,
                    seq![
                        spec_grammar(rest, GrammarKind::Verify),
                        spec_context(rest, ContextLabel::IntegerLeadingZero),
                    ],
                ),
            )
        } else {
            let negative = rest.len() > 0 && rest[0] == 0x2d;
            let start: int = if negative {
                1
            } else {
                0
            };
            let digits = spec_digit_run(rest, start);
            if digits == 0 {
                let cause = if negative {
                    spec_grammar(rest.subrange(1, rest.len() as int), GrammarKind::Digit)
                } else {
                    spec_frame(rest, BertErrorKind::ErrantChar(0x2d))
                };
                Err(spec_integer_failed(input, seq![cause, spec_grammar(rest, GrammarKind::Alt)]))
            } else {
                let end = start + digits;
                let after = rest.subrange(end, rest.len() as int);
                if after.len() == 0 || after[0] != 0x65 {
                    Err(spec_integer_failed(input, seq![spec_grammar(after, GrammarKind::Tag)]))
                } else {
                    Ok((after.subrange(1, after.len() as int), rest.subrange(0, end)))
                }
            }
        }
    }
}

/// A number type that a Bencoded integer can be read into and written from.
pub trait BencodeInteger: Sized {
    /// The number that a value of the type stands for.
    spec fn spec_value(&self) -> int;

    /// Whether the type has a value for `n`.
    spec fn spec_fits(n: int) -> bool;

    /// Why the type has no value for `n`.
    spec fn spec_fault(n: int) -> IntegerFault;

    /// Read a decimal text.
    fn from_decimal(text: &[u8]) -> (r: Result<Self, ParseIntegerDelegate>)
        requires
            spec_is_decimal(text@),
        ensures
            Self::spec_fits(spec_decimal_value(text@)) ==> (r matches Ok(number)
                && number.spec_value() == spec_decimal_value(text@)),
            !Self::spec_fits(spec_decimal_value(text@)) ==> (r matches Err(e) && e
                == ParseIntegerDelegate(Self::spec_fault(spec_decimal_value(text@)))),
    ;

    /// Write the decimal text.
    fn to_decimal(&self) -> (r: Vec<u8>)
        ensures
            r@ == spec_decimal(self.spec_value()),
    ;
}

/// Whether `b` is one of `0` to `9`.
pub fn is_digit(b: u8) -> (r: bool)
    ensures
        r == spec_is_digit(b),
{
    0x30 <= b && b <= 0x39
}

/// A run of digits from `from` to `to` counts `to - from` digits more than
/// the run that begins at `to`.
pub proof fn lemma_digit_run_split(s: Seq<u8>, from: int, to: int)
    requires
        0 <= from <= to <= s.len(),
        forall|i: int| from <= i < to ==> spec_is_digit(#[trigger] s[i]),
    ensures
        spec_digit_run(s, from) == (to - from) + spec_digit_run(s, to),
    decreases to - from,
{
    if from < to {
        lemma_digit_run_split(s, from + 1, to);
    }
}

/// A run of digits ends at the end of the input at the latest.
pub proof fn lemma_digit_run_bound(s: Seq<u8>, from: int)
    requires
        0 <= from <= s.len(),
    ensures
        from + spec_digit_run(s, from) <= s.len(),
    decreases s.len() - from,
{
    if from < s.len() && spec_is_digit(s[from]) {
        lemma_digit_run_bound(s, from + 1);
    }
}

/// An integer that the grammar accepts uses up at least the three bytes of
/// `i`, one digit and `e`.
pub proof fn lemma_integer_consumes(input: Seq<u8>)
    requires
        spec_integer_text(input) is Ok,
    ensures
        spec_integer_text(input)->Ok_0.0.len() + 3 <= input.len(),
{
    let rest = input.subrange(1, input.len() as int);
    let negative = rest.len() > 0 && rest[0] == 0x2d;
    let start: int = if negative {
        1
    } else {
        0
    };
    lemma_digit_run_bound(rest, start);
}

/// The number of digits that stand in `input` from `from` on.
pub fn digit_run(input: &[u8], from: usize) -> (n: usize)
    requires
        from <= input@.len(),
    ensures
        n == spec_digit_run(input@, from as int),
        from + n <= input@.len(),
        forall|i: int| from <= i < from + n ==> spec_is_digit(#[trigger] input@[i]),
        from + n < input@.len() ==> !spec_is_digit(input@[from + n]),
{
    let mut i: usize = from;
    while i < input.len() && is_digit(input[i])
        invariant
            from <= i <= input@.len(),
            forall|k: int| from <= k < i ==> spec_is_digit(#[trigger] input@[k]),
        decreases input@.len() - i,
    {
        i += 1;
    }
    proof {
        lemma_digit_run_split(input@, from as int, i as int);
    }
    i - from
}

/// Match the grammar of an integer: on success the input that follows the
/// integer and the text of the number, which is a decimal text.
pub fn integer_text(input: &[u8]) -> (r: Result<(&[u8], &[u8]), BertErrorTrace>)
    ensures
        match spec_integer_text(input@) {
            Ok((rest, text)) => r matches Ok(found) && found.0@ == rest && found.1@ == text
                && spec_is_decimal(text),
            Err(trail) => r matches Err(e) && e@ == trail,
        },
{
    let len: usize = input.len();
    if len == 0 || input[0] != 0x69 {
        let inner = BertErrorTrace::from_error_kind(input, GrammarKind::Tag);
        return Err(BertErrorTrace::add_context(input, ContextLabel::Integer, inner));
    }
    let rest = slice_subrange(input, 1, len);
    let rest_len: usize = rest.len();
    if rest_len >= 2 && rest[0] == 0x2d && rest[1] == 0x30 {
        let inner = BertErrorTrace::from_error_kind(rest, GrammarKind::Verify);
        let inner = BertErrorTrace::add_context(rest, ContextLabel::IntegerNegativeZero, inner);
        return Err(BertErrorTrace::add_context(input, ContextLabel::Integer, inner));
    }
    if rest_len >= 2 && rest[0] == 0x30 && is_digit(rest[1]) {
        let inner = BertErrorTrace::from_error_kind(rest, GrammarKind::Verify);
        let inner = BertErrorTrace::add_context(rest, ContextLabel::IntegerLeadingZero, inner);
        return Err(BertErrorTrace::add_context(input, ContextLabel::Integer, inner));
    }
    let negative = rest_len > 0 && rest[0] == 0x2d;
    let start: usize = if negative {
        1
    } else {
        0
    };
    let digits: usize = digit_run(rest, start);
    if digits == 0 {
        let inner = if negative {
            BertErrorTrace::from_error_kind(
                slice_subrange(rest, 1, rest_len),
                GrammarKind::Digit,
            )
        } else {
            BertErrorTrace::from_char(rest, 0x2d)
        };
        let inner = BertErrorTrace::append(rest, GrammarKind::Alt, inner);
        return Err(BertErrorTrace::add_context(input, ContextLabel::Integer, inner));
    }
    let end: usize = start + digits;
    let after = slice_subrange(rest, end, rest_len);
    if after.len() == 0 || after[0] != 0x65 {
        let inner = BertErrorTrace::from_error_kind(after, GrammarKind::Tag);
        return Err(BertErrorTrace::add_context(input, ContextLabel::Integer, inner));
    }
    let text = slice_subrange(rest, 0, end);
    let remaining = slice_subrange(after, 1, after.len());
    proof {
        if negative {
            assert(text@.skip(1) =~= rest@.subrange(1, end as int));
            assert(spec_is_digit(rest@[1]));
            assert(text@[1] == rest@[1]);
        } else {
            assert(spec_is_digit(rest@[0]));
            if text@[0] == 0x30 && text@.len() > 1 {
                assert(spec_is_digit(rest@[1]));
            }
        }
    }
    Ok((remaining, text))
}

/// Whether `text` is a number as the grammar writes it.
pub fn is_decimal(text: &[u8]) -> (r: bool)
    ensures
        r == spec_is_decimal(text@),
{
    let len: usize = text.len();
    if len == 0 {
        return false;
    }
    let negative = text[0] == 0x2d;
    let start: usize = if negative {
        1
    } else {
        0
    };
    let digits: usize = digit_run(text, start);
    proof {
        if start + digits < len {
            assert(!spec_is_digit(text@[start + digits]));
            if negative {
                assert(text@.skip(1)[digits as int] == text@[start + digits]);
            }
        } else if negative {
            assert forall|i: int| 0 <= i < text@.skip(1).len() implies spec_is_digit(
                #[trigger] text@.skip(1)[i],
            ) by {
                assert(text@.skip(1)[i] == text@[i + 1]);
            }
        }
    }
    if start + digits != len || digits == 0 {
        return false;
    }
    if negative {
        text[1] != 0x30
    } else {
        text[0] != 0x30 || len == 1
    }
}

/// Read a number from its text alone, without the delimiters of Bencode. A
/// text that is no number as the grammar writes it is refused as an invalid
/// digit; one that is, is refused only where the number type has no value
/// for it.
pub fn bytes_to_str_to_int<N: BencodeInteger>(bytes: &[u8]) -> (r: Result<N, BertErrorKind>)
    ensures
        !spec_is_decimal(bytes@) ==> (r matches Err(e) && e == BertErrorKind::ParseInt(
            ParseIntegerDelegate(IntegerFault::InvalidDigit),
        )),
        spec_is_decimal(bytes@) && N::spec_fits(spec_decimal_value(bytes@)) ==> (r matches Ok(
            number,
        ) && number.spec_value() == spec_decimal_value(bytes@)),
        spec_is_decimal(bytes@) && !N::spec_fits(spec_decimal_value(bytes@)) ==> (r matches Err(e)
            && e == BertErrorKind::ParseInt(
            ParseIntegerDelegate(N::spec_fault(spec_decimal_value(bytes@))),
        )),
{
    if !is_decimal(bytes) {
        return Err(BertErrorKind::ParseInt(ParseIntegerDelegate(IntegerFault::InvalidDigit)));
    }
    match N::from_decimal(bytes) {
        Ok(number) => Ok(number),
        Err(fault) => Err(BertErrorKind::ParseInt(fault)),
    }
}

/// Parse a Bencoded integer.
///
/// On success the result holds the input that follows the integer and the
/// number. The grammar decides first; a text that it accepts is refused only
/// where the number type has no value for it, and the trail then names the
/// fault as that type sees it.
pub fn integer<N: BencodeInteger>(input: &[u8]) -> (r: Result<(&[u8], N), BertErrorTrace>)
    ensures
        match spec_integer_text(input@) {
            Ok((rest, text)) => if N::spec_fits(spec_decimal_value(text)) {
                r matches Ok(found) && found.0@ == rest && found.1.spec_value()
                    == spec_decimal_value(text)
            } else {
                r matches Err(e) && e@ == spec_integer_refused(
                    input@,
                    N::spec_fault(spec_decimal_value(text)),
                )
            },
            Err(trail) => r matches Err(e) && e@ == trail,
        },
{
    match integer_text(input) {
        Err(e) => Err(e),
        Ok((remaining, text)) => match N::from_decimal(text) {
            Ok(number) => Ok((remaining, number)),
            Err(fault) => {
                let inner = BertErrorTrace::from_external_error(
                    input,
                    GrammarKind::MapRes,
                    BertErrorKind::ParseInt(fault),
                );
                Err(BertErrorTrace::add_context(input, ContextLabel::Integer, inner))
            },
        },
    }
}

} // verus!
