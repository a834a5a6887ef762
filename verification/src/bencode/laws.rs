//! What is read and written again is the same bytes.
//!
//! The grammar accepts one text for each value: an integer has no leading
//! zero and no negative zero, and the length of a byte string has no leading
//! zero. A dictionary is written in the order in which it was read. So
//! whatever decodes is written again byte for byte.

use crate::bencode::bytes::spec_bytes;
use crate::bencode::encode::lemma_decimal_canonical;
use crate::bencode::encode::lemma_digits_canonical;
use crate::bencode::encode::spec_encode_bytes;
use crate::bencode::integer::lemma_digit_run_bound;
use crate::bencode::integer::lemma_digit_run_split;
use crate::bencode::integer::spec_all_digits;
use crate::bencode::integer::spec_digit_run;
use crate::bencode::integer::spec_digits_value;
use crate::bencode::integer::spec_integer_text;
use crate::bencode::integer::spec_is_decimal;
use crate::bencode::integer::spec_is_digit;
use crate::bencode::value::lemma_value_consumes;
use crate::bencode::value::spec_decode_items;
use crate::bencode::value::spec_decode_pairs;
use crate::bencode::value::spec_decode_value;
use crate::bencode::value::spec_encode_items;
use crate::bencode::value::spec_encode_pairs;
use crate::bencode::value::spec_encode_value;
use crate::bencode::value::ValueView;
use vstd::prelude::*;

verus! {

/// Every byte of a run of digits is a digit.
pub proof fn lemma_digit_run_digits(s: Seq<u8>, from: int)
    requires
        0 <= from <= s.len(),
    ensures
        forall|i: int| from <= i < from + spec_digit_run(s, from) ==> spec_is_digit(#[trigger] s[i]),
    decreases s.len() - from,
{
    if from < s.len() && spec_is_digit(s[from]) {
        lemma_digit_run_digits(s, from + 1);
    }
}

/// The text of an integer that the grammar accepts is a number as the
/// grammar writes it, and the input is `i`, that text, `e` and what the
/// grammar leaves.
pub proof fn lemma_integer_text_exact(input: Seq<u8>)
    requires
        spec_integer_text(input) is Ok,
    ensures
        spec_is_decimal(spec_integer_text(input)->Ok_0.1),
        input == seq![0x69u8] + spec_integer_text(input)->Ok_0.1 + seq![0x65u8] + spec_integer_text(
            input,
        )->Ok_0.0,
{
    let body = input.subrange(1, input.len() as int);
    let negative = body.len() > 0 && body[0] == 0x2d;
    let start: int = if negative {
        1
    } else {
        0
    };
    lemma_digit_run_bound(body, start);
    lemma_digit_run_digits(body, start);
    let end = start + spec_digit_run(body, start);
    let text = body.subrange(0, end);
    let after = body.subrange(end, body.len() as int);
    let rest = after.subrange(1, after.len() as int);
    assert(spec_integer_text(input)->Ok_0 == (rest, text));
    if negative {
        assert(spec_is_digit(body[1]));
        assert(text[1] == body[1]);
        assert forall|i: int| 0 <= i < text.skip(1).len() implies spec_is_digit(
            #[trigger] text.skip(1)[i],
        ) by {
            assert(text.skip(1)[i] == body[i + 1]);
        }
    } else {
        assert(spec_is_digit(body[0]));
        assert forall|i: int| 0 <= i < text.len() implies spec_is_digit(#[trigger] text[i]) by {
            assert(text[i] == body[i]);
        }
        if text[0] == 0x30 && text.len() > 1 {
            assert(spec_is_digit(body[1]));
        }
    }
    assert(input =~= seq![0x69u8] + text + seq![0x65u8] + rest);
}

/// The input of a byte string that the grammar accepts is the Bencode of its
/// bytes and what the grammar leaves.
pub proof fn lemma_bytes_exact(input: Seq<u8>)
    requires
        spec_bytes(input) is Ok,
    ensures
        input == spec_encode_bytes(spec_bytes(input)->Ok_0.1) + spec_bytes(input)->Ok_0.0,
        spec_bytes(input)->Ok_0.1.len() <= usize::MAX,
{
    lemma_digit_run_bound(input, 0);
    lemma_digit_run_digits(input, 0);
    let digits = spec_digit_run(input, 0);
    let text = input.subrange(0, digits as int);
    let after = input.subrange(digits as int, input.len() as int);
    let body_all = after.subrange(1, after.len() as int);
    let length = spec_digits_value(text);
    let body = body_all.subrange(0, length as int);
    let rest = body_all.subrange(length as int, body_all.len() as int);
    assert(spec_bytes(input)->Ok_0 == (rest, body));
    assert(spec_all_digits(text)) by {
        assert forall|i: int| 0 <= i < text.len() implies spec_is_digit(#[trigger] text[i]) by {
            assert(text[i] == input[i]);
        }
    }
    assert(text[0] == input[0]);
    lemma_digits_canonical(text);
    assert(input =~= text + seq![0x3au8] + body + rest);
}

/// In a list with one value put before the others, the values from the
/// place `k + 1` on are written as the others from the place `k` on.
pub proof fn lemma_encode_items_shift(first: ValueView, more: Seq<ValueView>, k: int)
    requires
        0 <= k,
    ensures
        spec_encode_items(seq![first] + more, k + 1) == spec_encode_items(more, k),
    decreases more.len() - k,
{
    let all = seq![first] + more;
    if k < more.len() {
        lemma_encode_items_shift(first, more, k + 1);
        assert(all[k + 1] == more[k]);
    }
}

/// In a dictionary with one key and value put before the others, those from
/// the place `k + 1` on are written as the others from the place `k` on.
pub proof fn lemma_encode_pairs_shift(
    first: (Seq<u8>, ValueView),
    more: Seq<(Seq<u8>, ValueView)>,
    k: int,
)
    requires
        0 <= k,
    ensures
        spec_encode_pairs(seq![first] + more, k + 1) == spec_encode_pairs(more, k),
    decreases more.len() - k,
{
    let all = seq![first] + more;
    if k < more.len() {
        lemma_encode_pairs_shift(first, more, k + 1);
        assert(all[k + 1] == more[k]);
    }
}

/// A value that was decoded is written as the bytes that it was decoded
/// from: the input is the Bencode of the value and what the decoder left.
pub proof fn lemma_decode_exact(input: Seq<u8>, depth: nat)
    requires
        spec_decode_value(input, depth) is Ok,
    ensures
        input == spec_encode_value(spec_decode_value(input, depth)->Ok_0.0) + spec_decode_value(
            input,
            depth,
        )->Ok_0.1,
    decreases depth, input.len(), 0nat,
{
    let value = spec_decode_value(input, depth)->Ok_0.0;
    let rest = spec_decode_value(input, depth)->Ok_0.1;
    if input[0] == 0x69 {
        lemma_integer_text_exact(input);
        let text = spec_integer_text(input)->Ok_0.1;
        lemma_decimal_canonical(text);
    } else if spec_is_digit(input[0]) {
        lemma_bytes_exact(input);
    } else if input[0] == 0x6c {
        let inside = input.subrange(1, input.len() as int);
        lemma_items_exact(inside, (depth - 1) as nat);
        let items = spec_decode_items(inside, (depth - 1) as nat)->Ok_0.0;
        assert(input =~= seq![0x6cu8] + inside);
        assert(input =~= seq![0x6cu8] + spec_encode_items(items, 0) + seq![0x65u8] + rest);
    } else {
        let inside = input.subrange(1, input.len() as int);
        lemma_pairs_exact(inside, (depth - 1) as nat);
        let pairs = spec_decode_pairs(inside, (depth - 1) as nat)->Ok_0.0;
        assert(input =~= seq![0x64u8] + inside);
        assert(input =~= seq![0x64u8] + spec_encode_pairs(pairs, 0) + seq![0x65u8] + rest);
    }
}

/// The inside of a list that was decoded is the Bencode of its values, the
/// `e` that closes the list, and what the decoder left.
pub proof fn lemma_items_exact(input: Seq<u8>, depth: nat)
    requires
        spec_decode_items(input, depth) is Ok,
    ensures
        input == spec_encode_items(spec_decode_items(input, depth)->Ok_0.0, 0) + seq![0x65u8]
            + spec_decode_items(input, depth)->Ok_0.1,
    decreases depth, input.len(), 1nat,
{
    let items = spec_decode_items(input, depth)->Ok_0.0;
    let rest = spec_decode_items(input, depth)->Ok_0.1;
    if input[0] == 0x65 {
        assert(input =~= seq![0x65u8] + rest);
        assert(spec_encode_items(items, 0) =~= Seq::<u8>::empty());
    } else {
        lemma_decode_exact(input, depth);
        lemma_value_consumes(input, depth);
        let first = spec_decode_value(input, depth)->Ok_0.0;
        let after = spec_decode_value(input, depth)->Ok_0.1;
        lemma_items_exact(after, depth);
        let more = spec_decode_items(after, depth)->Ok_0.0;
        assert(items == seq![first] + more);
        lemma_encode_items_shift(first, more, 0);
        assert(items[0] == first);
        assert(spec_encode_items(items, 0) == spec_encode_value(first) + spec_encode_items(
            more,
            0,
        ));
        assert(input =~= spec_encode_items(items, 0) + seq![0x65u8] + rest);
    }
}

/// The inside of a dictionary that was decoded is the Bencode of its keys
/// and values, the `e` that closes the dictionary, and what the decoder
/// left.
pub proof fn lemma_pairs_exact(input: Seq<u8>, depth: nat)
    requires
        spec_decode_pairs(input, depth) is Ok,
    ensures
        input == spec_encode_pairs(spec_decode_pairs(input, depth)->Ok_0.0, 0) + seq![0x65u8]
            + spec_decode_pairs(input, depth)->Ok_0.1,
    decreases depth, input.len(), 1nat,
{
    let pairs = spec_decode_pairs(input, depth)->Ok_0.0;
    let rest = spec_decode_pairs(input, depth)->Ok_0.1;
    if input[0] == 0x65 {
        assert(input =~= seq![0x65u8] + rest);
        assert(spec_encode_pairs(pairs, 0) =~= Seq::<u8>::empty());
    } else {
        lemma_bytes_exact(input);
        crate::bencode::bytes::lemma_bytes_consumes(input);
        let key = spec_bytes(input)->Ok_0.1;
        let after_key = spec_bytes(input)->Ok_0.0;
        lemma_decode_exact(after_key, depth);
        lemma_value_consumes(after_key, depth);
        let value = spec_decode_value(after_key, depth)->Ok_0.0;
        let after = spec_decode_value(after_key, depth)->Ok_0.1;
        lemma_pairs_exact(after, depth);
        let more = spec_decode_pairs(after, depth)->Ok_0.0;
        assert(pairs == seq![(key, value)] + more);
        lemma_encode_pairs_shift((key, value), more, 0);
        assert(pairs[0] == (key, value));
        assert(spec_encode_pairs(pairs, 0) == spec_encode_bytes(key) + spec_encode_value(value)
            + spec_encode_pairs(more, 0));
        assert(input =~= spec_encode_pairs(pairs, 0) + seq![0x65u8] + rest);
    }
}

/// Whether a value can be decoded with lists and dictionaries followed
/// `depth` levels deep: it is nested no deeper, and its byte strings and
/// keys are no longer than a `usize` counts.
pub open spec fn spec_within(v: ValueView, depth: nat) -> bool
    decreases v,
{
    match v {
        ValueView::Int(_) => true,
        ValueView::Bytes(b) => b.len() <= usize::MAX,
        ValueView::List(items) => depth > 0 && forall|i: int|
            0 <= i < items.len() ==> spec_within(#[trigger] items[i], (depth - 1) as nat),
        ValueView::Dict(pairs) => depth > 0 && forall|i: int|
            0 <= i < pairs.len() ==> (#[trigger] pairs[i]).0.len() <= usize::MAX && spec_within(
                pairs[i].1,
                (depth - 1) as nat,
            ),
    }
}

/// What was written for a byte string reads back as the byte string, and
/// the input that followed it.
pub proof fn lemma_bytes_round_trip(b: Seq<u8>, rest: Seq<u8>)
    requires
        b.len() <= usize::MAX,
    ensures
        spec_bytes(spec_encode_bytes(b) + rest) == Ok::<
            (Seq<u8>, Seq<u8>),
            Seq<crate::bencode::error::BertErrorView>,
        >((rest, b)),
        spec_encode_bytes(b).len() > 0,
        spec_is_digit(spec_encode_bytes(b)[0]),
{
    let digits = crate::bencode::integer::spec_digits(b.len());
    crate::bencode::encode::lemma_digits_shape(b.len());
    crate::bencode::encode::lemma_digits_value(b.len());
    let input = spec_encode_bytes(b) + rest;
    assert(input =~= digits + seq![0x3au8] + b + rest);
    let n = digits.len() as int;
    assert(spec_is_digit(digits[0]));
    assert forall|i: int| 0 <= i < n implies spec_is_digit(#[trigger] input[i]) by {
        assert(input[i] == digits[i]);
    }
    assert(input[n] == 0x3a);
    lemma_digit_run_split(input, 0, n);
    assert(spec_digit_run(input, n) == 0);
    assert(input[0] == digits[0]);
    assert(input.subrange(0, n) =~= digits);
    let after = input.subrange(n, input.len() as int);
    assert(after[0] == 0x3a);
    let body = after.subrange(1, after.len() as int);
    assert(body =~= b + rest);
    assert(body.subrange(0, b.len() as int) =~= b);
    assert(body.subrange(b.len() as int, body.len() as int) =~= rest);
    assert(spec_encode_bytes(b)[0] == digits[0]);
}

/// What is written for a value is not empty, and does not begin with the
/// `e` that closes a list or a dictionary.
pub proof fn lemma_encode_first_byte(v: ValueView)
    requires
        v is Bytes ==> v->Bytes_0.len() <= usize::MAX,
    ensures
        spec_encode_value(v).len() > 0,
        spec_encode_value(v)[0] != 0x65,
{
    match v {
        ValueView::Bytes(b) => {
            lemma_bytes_round_trip(b, Seq::empty());
        },
        _ => {},
    }
}

/// A value that was written reads back as the value, and the input that
/// followed it: for every value that the decoder can follow.
pub proof fn lemma_value_round_trip(v: ValueView, rest: Seq<u8>, depth: nat)
    requires
        spec_within(v, depth),
    ensures
        spec_decode_value(spec_encode_value(v) + rest, depth) == Ok::<
            (ValueView, Seq<u8>),
            Seq<crate::bencode::error::BertErrorView>,
        >((v, rest)),
    decreases v, 0nat,
{
    let input = spec_encode_value(v) + rest;
    match v {
        ValueView::Int(n) => {
            crate::bencode::encode::lemma_integer_round_trip(n as int, rest);
            assert(input[0] == 0x69);
        },
        ValueView::Bytes(b) => {
            lemma_bytes_round_trip(b, rest);
            assert(input[0] == spec_encode_bytes(b)[0]);
        },
        ValueView::List(items) => {
            lemma_items_round_trip(items, 0, rest, (depth - 1) as nat);
            assert(input[0] == 0x6c);
            assert(input.subrange(1, input.len() as int) =~= spec_encode_items(items, 0) + seq![
                0x65u8,
            ] + rest);
            assert(items.skip(0) =~= items);
        },
        ValueView::Dict(pairs) => {
            lemma_pairs_round_trip(pairs, 0, rest, (depth - 1) as nat);
            assert(input[0] == 0x64);
            assert(input.subrange(1, input.len() as int) =~= spec_encode_pairs(pairs, 0) + seq![
                0x65u8,
            ] + rest);
            assert(pairs.skip(0) =~= pairs);
        },
    }
}

/// The values of a list that were written read back as the values, up to
/// the `e` that closes the list.
pub proof fn lemma_items_round_trip(items: Seq<ValueView>, from: int, rest: Seq<u8>, depth: nat)
    requires
        0 <= from <= items.len(),
        forall|i: int| 0 <= i < items.len() ==> spec_within(#[trigger] items[i], depth),
    ensures
        spec_decode_items(spec_encode_items(items, from) + seq![0x65u8] + rest, depth) == Ok::<
            (Seq<ValueView>, Seq<u8>),
            Seq<crate::bencode::error::BertErrorView>,
        >((items.skip(from), rest)),
    decreases items, items.len() - from,
{
    let input = spec_encode_items(items, from) + seq![0x65u8] + rest;
    if from == items.len() {
        assert(input =~= seq![0x65u8] + rest);
        assert(input.subrange(1, input.len() as int) =~= rest);
        assert(items.skip(from) =~= Seq::<ValueView>::empty());
    } else {
        let first = items[from];
        let tail = spec_encode_items(items, from + 1) + seq![0x65u8] + rest;
        assert(input =~= spec_encode_value(first) + tail);
        lemma_encode_first_byte(first);
        assert(input[0] == spec_encode_value(first)[0]);
        lemma_value_round_trip(first, tail, depth);
        lemma_items_round_trip(items, from + 1, rest, depth);
        assert(seq![first] + items.skip(from + 1) =~= items.skip(from));
    }
}

/// The keys and values of a dictionary that were written read back as they
/// were, up to the `e` that closes the dictionary.
pub proof fn lemma_pairs_round_trip(
    pairs: Seq<(Seq<u8>, ValueView)>,
    from: int,
    rest: Seq<u8>,
    depth: nat,
)
    requires
        0 <= from <= pairs.len(),
        forall|i: int|
            0 <= i < pairs.len() ==> (#[trigger] pairs[i]).0.len() <= usize::MAX && spec_within(
                pairs[i].1,
                depth,
            ),
    ensures
        spec_decode_pairs(spec_encode_pairs(pairs, from) + seq![0x65u8] + rest, depth) == Ok::<
            (Seq<(Seq<u8>, ValueView)>, Seq<u8>),
            Seq<crate::bencode::error::BertErrorView>,
        >((pairs.skip(from), rest)),
    decreases pairs, pairs.len() - from,
{
    let input = spec_encode_pairs(pairs, from) + seq![0x65u8] + rest;
    if from == pairs.len() {
        assert(input =~= seq![0x65u8] + rest);
        assert(input.subrange(1, input.len() as int) =~= rest);
        assert(pairs.skip(from) =~= Seq::<(Seq<u8>, ValueView)>::empty());
    } else {
        let key = pairs[from].0;
        let value = pairs[from].1;
        let tail = spec_encode_pairs(pairs, from + 1) + seq![0x65u8] + rest;
        let after_key = spec_encode_value(value) + tail;
        assert(input =~= spec_encode_bytes(key) + after_key);
        lemma_bytes_round_trip(key, after_key);
        assert(input[0] == spec_encode_bytes(key)[0]);
        lemma_encode_first_byte(value);
        lemma_value_round_trip(value, tail, depth);
        lemma_pairs_round_trip(pairs, from + 1, rest, depth);
        assert(seq![(key, value)] + pairs.skip(from + 1) =~= pairs.skip(from));
    }
}

} // verus!
