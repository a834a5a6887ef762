//! Bencoded byte strings.
//!
//! A byte string is the decimal text of its length, `:`, and as many bytes.
//! Text is written in the same way and must then be UTF-8.

use crate::bencode::error::BertErrorKind;
use crate::bencode::error::BertErrorTrace;
use crate::bencode::error::BertErrorView;
use crate::bencode::error::ContextLabel;
use crate::bencode::error::GrammarKind;
use crate::bencode::error::IntegerFault;
use crate::bencode::error::ParseIntegerDelegate;
use crate::bencode::error::spec_context;
use crate::bencode::error::spec_frame;
use crate::bencode::error::spec_grammar;
use crate::bencode::integer::digit_run;
use crate::bencode::integer::spec_digit_run;
use crate::bencode::integer::spec_digits_value;
use crate::bencode::integer::BencodeInteger;
use crate::text::lemma_valid_up_to_unique;
use crate::text::spec_valid_up_to;
use crate::text::str_from_utf8;
use vstd::prelude::*;
use vstd::slice::slice_subrange;
use vstd::string::StringSliceAdditionalSpecFns;
use vstd::utf8::valid_utf8;

verus! {

/// The trail of a failure inside a byte string: the frames of the failure,
/// then the frame of the byte string itself.
pub open spec fn spec_bytes_failed(input: Seq<u8>, inner: Seq<BertErrorView>) -> Seq<BertErrorView> {
    inner.push(spec_context(input, ContextLabel::Bytes))
}

/// What the grammar makes of `input`: the bytes of the string and the input
/// that follows them, or the trail of the first rule that is broken.
///
/// The rules, in the order in which they are held against the input: it
/// begins with a digit; the run of digits has no leading zero; `:` follows
/// it; the length that the digits stand for is a `usize`; at least as many
/// bytes follow the `:`.
pub open spec fn spec_bytes(input: Seq<u8>) -> Result<(Seq<u8>, Seq<u8>), Seq<BertErrorView>> {
    let digits = spec_digit_run(input, 0);
    if digits == 0 {
        Err(
            spec_bytes_failed(
                input,
                seq![
                    spec_grammar(input, GrammarKind::Digit),
                    spec_context(input, ContextLabel::BytesLength),
                ],
            ),
        )
    } else if digits >= 2 && input[0] == 0x30 {
        Err(
            spec_bytes_failed(
                input,
                seq![
                    spec_grammar(input, GrammarKind::Verify),
                    spec_context(input, ContextLabel::BytesLength),
                ],
            ),
        )
    } else {
        let after = input.subrange(digits as int, input.len() as int);
        if after.len() == 0 || after[0] != 0x3a {
            Err(
                spec_bytes_failed(
                    input,
                    seq![
                        spec_frame(after, BertErrorKind::ErrantChar(0x3a)),
                        spec_context(after, ContextLabel::BytesDelimiter),
                    ],
                ),
            )
        } else {
            let length = spec_digits_value(input.subrange(0, digits as int));
            if length > usize::MAX {
                Err(
                    spec_bytes_failed(
                        input,
                        seq![
                            spec_grammar(input, GrammarKind::MapRes),
                            spec_frame(
                                input,
                                BertErrorKind::ParseInt(
                                    ParseIntegerDelegate(IntegerFault::PosOverflow),
                                ),
                            ),
                        ],
                    ),
                )
            } else {
                let body = after.subrange(1, after.len() as int);
                if body.len() < length {
                    Err(
                        spec_bytes_failed(
                            input,
                            seq![
                                spec_frame(
                                    body,
                                    BertErrorKind::Truncated {
                                        requested: length as usize,
                                        available: body.len() as usize,
                                    },
                                ),
                            ],
                        ),
                    )
                } else {
                    Ok((body.subrange(length as int, body.len() as int), body.subrange(0, length as int)))
                }
            }
        }
    }
}

/// What `bytes_str` makes of `input`: as `spec_bytes`, and the bytes must be
/// UTF-8. Where they are not, the trail is one frame, which holds the bytes
/// and the length of their longest prefix that is UTF-8.
pub open spec fn spec_bytes_str(input: Seq<u8>) -> Result<(Seq<u8>, Seq<u8>), Seq<BertErrorView>> {
    match spec_bytes(input) {
        Err(trail) => Err(trail),
        Ok((rest, body)) => if valid_utf8(body) {
            Ok((rest, body))
        } else {
            Err(
                seq![
                    spec_frame(
                        body,
                        BertErrorKind::Unicode { valid_up_to: spec_valid_up_to(body) as usize },
                    ),
                ],
            )
        },
    }
}

/// Parse a Bencoded byte string: on success the input that follows it, and
/// its bytes.
pub fn bytes(input: &[u8]) -> (r: Result<(&[u8], &[u8]), BertErrorTrace>)
    ensures
        match spec_bytes(input@) {
            Ok((rest, body)) => r matches Ok(found) && found.0@ == rest && found.1@ == body,
            Err(trail) => r matches Err(e) && e@ == trail,
        },
{
    let digits: usize = digit_run(input, 0);
    if digits == 0 {
        let inner = BertErrorTrace::from_error_kind(input, GrammarKind::Digit);
        let inner = BertErrorTrace::add_context(input, ContextLabel::BytesLength, inner);
        return Err(BertErrorTrace::add_context(input, ContextLabel::Bytes, inner));
    }
    if digits >= 2 && input[0] == 0x30 {
        let inner = BertErrorTrace::from_error_kind(input, GrammarKind::Verify);
        let inner = BertErrorTrace::add_context(input, ContextLabel::BytesLength, inner);
        return Err(BertErrorTrace::add_context(input, ContextLabel::Bytes, inner));
    }
    let after = slice_subrange(input, digits, input.len());
    if after.len() == 0 || after[0] != 0x3a {
        let inner = BertErrorTrace::from_char(after, 0x3a);
        let inner = BertErrorTrace::add_context(after, ContextLabel::BytesDelimiter, inner);
        return Err(BertErrorTrace::add_context(input, ContextLabel::Bytes, inner));
    }
    let text = slice_subrange(input, 0, digits);
    proof {
        assert(crate::bencode::integer::spec_is_digit(input@[0]));
        assert(crate::bencode::integer::spec_is_decimal(text@));
    }
    let length: usize = match usize::from_decimal(text) {
        Ok(length) => length,
        Err(fault) => {
            let inner = BertErrorTrace::from_external_error(
                input,
                GrammarKind::MapRes,
                BertErrorKind::ParseInt(fault),
            );
            return Err(BertErrorTrace::add_context(input, ContextLabel::Bytes, inner));
        },
    };
    let body = slice_subrange(after, 1, after.len());
    if body.len() < length {
        let inner = BertErrorTrace::from_bert_error_kind(
            body,
            BertErrorKind::Truncated { requested: length, available: body.len() },
        );
        return Err(BertErrorTrace::add_context(input, ContextLabel::Bytes, inner));
    }
    Ok((slice_subrange(body, length, body.len()), slice_subrange(body, 0, length)))
}

/// Parse a Bencoded byte string that is text: on success the input that
/// follows it, and the text.
pub fn bytes_str(input: &[u8]) -> (r: Result<(&[u8], &str), BertErrorTrace>)
    ensures
        match spec_bytes_str(input@) {
            Ok((rest, body)) => r matches Ok(found) && found.0@ == rest && found.1.spec_bytes()
                == body,
            Err(trail) => r matches Err(e) && e@ == trail,
        },
{
    match bytes(input) {
        Err(e) => Err(e),
        Ok((remaining, body)) => match str_from_utf8(body) {
            Ok(text) => Ok((remaining, text)),
            Err(valid_up_to) => {
                proof {
                    lemma_valid_up_to_unique(body@, valid_up_to as int);
                }
                Err(
                    BertErrorTrace::from_bert_error_kind(
                        body,
                        BertErrorKind::Unicode { valid_up_to },
                    ),
                )
            },
        },
    }
}

/// A byte string that decodes uses up at least the two bytes of the
/// shortest length and its `:`.
pub proof fn lemma_bytes_consumes(input: Seq<u8>)
    requires
        spec_bytes(input) is Ok,
    ensures
        spec_bytes(input)->Ok_0.0.len() + 2 <= input.len(),
{
    crate::bencode::integer::lemma_digit_run_bound(input, 0);
}

} // verus!
