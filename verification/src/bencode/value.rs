//! Bencoded values of any kind.
//!
//! A value is an integer, a byte string, a list of values or a dictionary.
//! A dictionary is held as its keys and values in the order in which they
//! were read, so that what was read can be written again byte for byte.
//! Lists and dictionaries may be nested, but only to a depth that the
//! decoder sets: the input decides how deep it is, and a decoder that
//! followed it without bound could be made to run out of stack.

use crate::bencode::bytes::bytes;
use crate::bencode::bytes::spec_bytes;
use crate::bencode::encode::encode_bytes;
use crate::bencode::encode::encode_integer;
use crate::bencode::encode::spec_encode_bytes;
use crate::bencode::encode::spec_encode_integer;
use crate::bencode::error::spec_context;
use crate::bencode::error::spec_grammar;
use crate::bencode::error::BertErrorTrace;
use crate::bencode::error::BertErrorView;
use crate::bencode::error::ContextLabel;
use crate::bencode::error::GrammarKind;
use crate::bencode::integer::integer;
use crate::bencode::integer::is_digit;
use crate::bencode::integer::spec_decimal_value;
use crate::bencode::integer::spec_integer_refused;
use crate::bencode::integer::spec_integer_text;
use crate::bencode::integer::spec_is_digit;
use crate::bencode::integer::BencodeInteger;
use vstd::prelude::*;
use vstd::slice::slice_subrange;
use vstd::string::StringSliceAdditionalSpecFns;

verus! {

/// The depth to which the decoder follows lists and dictionaries.
pub const MAX_DEPTH: usize = 256;

/// A Bencoded value.
#[derive(Debug, PartialEq, Eq)]
pub enum Value {
    Int(i64),
    Bytes(Vec<u8>),
    List(Vec<Value>),
    Dict(Vec<(Vec<u8>, Value)>),
}

/// A Bencoded value as contracts see it.
pub enum ValueView {
    Int(i64),
    Bytes(Seq<u8>),
    List(Seq<ValueView>),
    Dict(Seq<(Seq<u8>, ValueView)>),
}

/// A value as contracts see it.
pub open spec fn spec_value_view(v: Value) -> ValueView
    decreases v,
{
    match v {
        Value::Int(n) => ValueView::Int(n),
        Value::Bytes(b) => ValueView::Bytes(b@),
        Value::List(items) => ValueView::List(
            Seq::new(
                items@.len(),
                |i: int|
                    if 0 <= i < items@.len() {
                        spec_value_view(items@[i])
                    } else {
                        ValueView::Int(0)
                    },
            ),
        ),
        Value::Dict(pairs) => ValueView::Dict(
            Seq::new(
                pairs@.len(),
                |i: int|
                    if 0 <= i < pairs@.len() {
                        (pairs@[i].0@, spec_value_view(pairs@[i].1))
                    } else {
                        (Seq::empty(), ValueView::Int(0))
                    },
            ),
        ),
    }
}

impl View for Value {
    type V = ValueView;

    open spec fn view(&self) -> ValueView {
        spec_value_view(*self)
    }
}

/// The values of a list as contracts see them.
pub open spec fn spec_views(items: Seq<Value>) -> Seq<ValueView> {
    Seq::new(items.len(), |i: int| items[i]@)
}

/// The keys and values of a dictionary as contracts see them.
pub open spec fn spec_pair_views(pairs: Seq<(Vec<u8>, Value)>) -> Seq<(Seq<u8>, ValueView)> {
    Seq::new(pairs.len(), |i: int| (pairs[i].0@, pairs[i].1@))
}

/// The view of a list is the list of the views of its values.
pub proof fn lemma_list_view(items: Vec<Value>)
    ensures
        Value::List(items)@ == ValueView::List(spec_views(items@)),
{
    let v = Value::List(items);
    reveal_with_fuel(spec_value_view, 2);
    assert(v@->List_0 =~= spec_views(items@));
}

/// The view of a dictionary is the sequence of the views of its keys and
/// values.
pub proof fn lemma_dict_view(pairs: Vec<(Vec<u8>, Value)>)
    ensures
        Value::Dict(pairs)@ == ValueView::Dict(spec_pair_views(pairs@)),
{
    let v = Value::Dict(pairs);
    reveal_with_fuel(spec_value_view, 2);
    assert(v@->Dict_0 =~= spec_pair_views(pairs@));
}

/// The Bencode of a value: a list is `l`, its values, `e`; a dictionary is
/// `d`, its keys and values in turn, in the order in which it holds them,
/// `e`.
pub open spec fn spec_encode_value(v: ValueView) -> Seq<u8>
    decreases v, 0nat,
{
    match v {
        ValueView::Int(n) => spec_encode_integer(n as int),
        ValueView::Bytes(b) => spec_encode_bytes(b),
        ValueView::List(items) => seq![0x6cu8] + spec_encode_items(items, 0) + seq![0x65u8],
        ValueView::Dict(pairs) => seq![0x64u8] + spec_encode_pairs(pairs, 0) + seq![0x65u8],
    }
}

/// The Bencode of the values of a list from `from` on, one after the other.
pub open spec fn spec_encode_items(items: Seq<ValueView>, from: int) -> Seq<u8>
    decreases items, items.len() - from,
{
    if from < 0 || from >= items.len() {
        Seq::empty()
    } else {
        spec_encode_value(items[from]) + spec_encode_items(items, from + 1)
    }
}

/// The Bencode of the keys and values of a dictionary from `from` on.
pub open spec fn spec_encode_pairs(pairs: Seq<(Seq<u8>, ValueView)>, from: int) -> Seq<u8>
    decreases pairs, pairs.len() - from,
{
    if from < 0 || from >= pairs.len() {
        Seq::empty()
    } else {
        spec_encode_bytes(pairs[from].0) + spec_encode_value(pairs[from].1) + spec_encode_pairs(
            pairs,
            from + 1,
        )
    }
}

/// The result of a decode with `first` put before the values that were
/// decoded.
pub open spec fn spec_prepend_item(
    first: ValueView,
    r: Result<(Seq<ValueView>, Seq<u8>), Seq<BertErrorView>>,
) -> Result<(Seq<ValueView>, Seq<u8>), Seq<BertErrorView>> {
    match r {
        Ok((items, rest)) => Ok((seq![first] + items, rest)),
        Err(trail) => Err(trail),
    }
}

/// The result of a decode with `first` put before the keys and values that
/// were decoded.
pub open spec fn spec_prepend_pair(
    first: (Seq<u8>, ValueView),
    r: Result<(Seq<(Seq<u8>, ValueView)>, Seq<u8>), Seq<BertErrorView>>,
) -> Result<(Seq<(Seq<u8>, ValueView)>, Seq<u8>), Seq<BertErrorView>> {
    match r {
        Ok((pairs, rest)) => Ok((seq![first] + pairs, rest)),
        Err(trail) => Err(trail),
    }
}

/// The trail of an input that ends where a value, or the `e` that closes a
/// list or a dictionary, should stand.
pub open spec fn spec_ended(input: Seq<u8>) -> Seq<BertErrorView> {
    seq![spec_grammar(input, GrammarKind::Eof)]
}

/// The trail of a byte with which no value begins.
pub open spec fn spec_no_value(input: Seq<u8>) -> Seq<BertErrorView> {
    seq![spec_grammar(input, GrammarKind::Alt), spec_context(input, ContextLabel::Value)]
}

/// The trail of a list or dictionary that is nested deeper than the decoder
/// follows.
pub open spec fn spec_too_deep(input: Seq<u8>) -> Seq<BertErrorView> {
    seq![spec_grammar(input, GrammarKind::TooLarge), spec_context(input, ContextLabel::Value)]
}

/// What the grammar makes of `input`: a value and the input that follows
/// it, or the trail of the failure. `depth` is the number of levels of lists
/// and dictionaries that may still be entered.
///
/// The first byte decides: `i` begins an integer, which must fit 64 bits; a
/// digit begins a byte string; `l` a list; `d` a dictionary. A failure
/// inside a list or a dictionary is wrapped in the frame of each list and
/// dictionary around it.
pub open spec fn spec_decode_value(input: Seq<u8>, depth: nat) -> Result<
    (ValueView, Seq<u8>),
    Seq<BertErrorView>,
>
    decreases depth, input.len(), 0nat,
{
    if input.len() == 0 {
        Err(spec_ended(input))
    } else if input[0] == 0x69 {
        match spec_integer_text(input) {
            Err(trail) => Err(trail),
            Ok((rest, text)) => if i64::spec_fits(spec_decimal_value(text)) {
                Ok((ValueView::Int(spec_decimal_value(text) as i64), rest))
            } else {
                Err(spec_integer_refused(input, i64::spec_fault(spec_decimal_value(text))))
            },
        }
    } else if spec_is_digit(input[0]) {
        match spec_bytes(input) {
            Err(trail) => Err(trail),
            Ok((rest, body)) => Ok((ValueView::Bytes(body), rest)),
        }
    } else if input[0] == 0x6c {
        if depth == 0 {
            Err(spec_too_deep(input))
        } else {
            match spec_decode_items(input.subrange(1, input.len() as int), (depth - 1) as nat) {
                Err(trail) => Err(trail.push(spec_context(input, ContextLabel::List))),
                Ok((items, rest)) => Ok((ValueView::List(items), rest)),
            }
        }
    } else if input[0] == 0x64 {
        if depth == 0 {
            Err(spec_too_deep(input))
        } else {
            match spec_decode_pairs(input.subrange(1, input.len() as int), (depth - 1) as nat) {
                Err(trail) => Err(trail.push(spec_context(input, ContextLabel::Dictionary))),
                Ok((pairs, rest)) => Ok((ValueView::Dict(pairs), rest)),
            }
        }
    } else {
        Err(spec_no_value(input))
    }
}

/// What the grammar makes of the inside of a list: values up to the `e` that
/// closes the list, and the input that follows that `e`.
pub open spec fn spec_decode_items(input: Seq<u8>, depth: nat) -> Result<
    (Seq<ValueView>, Seq<u8>),
    Seq<BertErrorView>,
>
    decreases depth, input.len(), 1nat,
{
    if input.len() == 0 {
        Err(spec_ended(input))
    } else if input[0] == 0x65 {
        Ok((Seq::empty(), input.subrange(1, input.len() as int)))
    } else {
        match spec_decode_value(input, depth) {
            Err(trail) => Err(trail),
            Ok((first, rest)) => if rest.len() < input.len() {
                spec_prepend_item(first, spec_decode_items(rest, depth))
            } else {
                Err(Seq::empty())
            },
        }
    }
}

/// What the grammar makes of the inside of a dictionary: keys, which are
/// byte strings, each with its value, up to the `e` that closes the
/// dictionary, and the input that follows that `e`.
pub open spec fn spec_decode_pairs(input: Seq<u8>, depth: nat) -> Result<
    (Seq<(Seq<u8>, ValueView)>, Seq<u8>),
    Seq<BertErrorView>,
>
    decreases depth, input.len(), 1nat,
{
    if input.len() == 0 {
        Err(spec_ended(input))
    } else if input[0] == 0x65 {
        Ok((Seq::empty(), input.subrange(1, input.len() as int)))
    } else {
        match spec_bytes(input) {
            Err(trail) => Err(trail.push(spec_context(input, ContextLabel::DictionaryKey))),
            Ok((after_key, key)) => if after_key.len() < input.len() {
                match spec_decode_value(after_key, depth) {
                    Err(trail) => Err(trail),
                    Ok((value, rest)) => if rest.len() < input.len() {
                        spec_prepend_pair((key, value), spec_decode_pairs(rest, depth))
                    } else {
                        Err(Seq::empty())
                    },
                }
            } else {
                Err(Seq::empty())
            },
        }
    }
}

/// A decode that succeeds uses up at least one byte of its input.
pub proof fn lemma_value_consumes(input: Seq<u8>, depth: nat)
    requires
        spec_decode_value(input, depth) is Ok,
    ensures
        spec_decode_value(input, depth)->Ok_0.1.len() < input.len(),
    decreases depth, input.len(), 0nat,
{
    if input.len() > 0 && input[0] == 0x6c && depth > 0 {
        lemma_items_consume(input.subrange(1, input.len() as int), (depth - 1) as nat);
    } else if input.len() > 0 && input[0] == 0x64 && depth > 0 {
        lemma_pairs_consume(input.subrange(1, input.len() as int), (depth - 1) as nat);
    } else if input.len() > 0 && input[0] == 0x69 {
        crate::bencode::integer::lemma_integer_consumes(input);
    } else if input.len() > 0 && spec_is_digit(input[0]) {
        crate::bencode::bytes::lemma_bytes_consumes(input);
    }
}

/// The inside of a list that decodes uses up at least one byte.
pub proof fn lemma_items_consume(input: Seq<u8>, depth: nat)
    requires
        spec_decode_items(input, depth) is Ok,
    ensures
        spec_decode_items(input, depth)->Ok_0.1.len() < input.len(),
    decreases depth, input.len(), 1nat,
{
    if input.len() > 0 && input[0] != 0x65 {
        lemma_value_consumes(input, depth);
        let rest = spec_decode_value(input, depth)->Ok_0.1;
        lemma_items_consume(rest, depth);
    }
}

/// The inside of a dictionary that decodes uses up at least one byte.
pub proof fn lemma_pairs_consume(input: Seq<u8>, depth: nat)
    requires
        spec_decode_pairs(input, depth) is Ok,
    ensures
        spec_decode_pairs(input, depth)->Ok_0.1.len() < input.len(),
    decreases depth, input.len(), 1nat,
{
    if input.len() > 0 && input[0] != 0x65 {
        let after_key = spec_bytes(input)->Ok_0.0;
        lemma_value_consumes(after_key, depth);
        let rest = spec_decode_value(after_key, depth)->Ok_0.1;
        lemma_pairs_consume(rest, depth);
    }
}

/// The result of a decode with `front` put before the values that were
/// decoded.
pub open spec fn spec_prepend_items(
    front: Seq<ValueView>,
    r: Result<(Seq<ValueView>, Seq<u8>), Seq<BertErrorView>>,
) -> Result<(Seq<ValueView>, Seq<u8>), Seq<BertErrorView>> {
    match r {
        Ok((items, rest)) => Ok((front + items, rest)),
        Err(trail) => Err(trail),
    }
}

/// The result of a decode with `front` put before the keys and values that
/// were decoded.
pub open spec fn spec_prepend_pairs(
    front: Seq<(Seq<u8>, ValueView)>,
    r: Result<(Seq<(Seq<u8>, ValueView)>, Seq<u8>), Seq<BertErrorView>>,
) -> Result<(Seq<(Seq<u8>, ValueView)>, Seq<u8>), Seq<BertErrorView>> {
    match r {
        Ok((pairs, rest)) => Ok((front + pairs, rest)),
        Err(trail) => Err(trail),
    }
}

/// Decode one value, of any kind: on success the value and the input that
/// follows it. Lists and dictionaries are followed `depth` levels deep.
pub fn decode_value(input: &[u8], depth: usize) -> (r: Result<(Value, &[u8]), BertErrorTrace>)
    ensures
        match spec_decode_value(input@, depth as nat) {
            Ok((value, rest)) => r matches Ok(found) && found.0@ == value && found.1@ == rest,
            Err(trail) => r matches Err(e) && e@ == trail,
        },
    decreases depth, 0nat,
{
    if input.len() == 0 {
        return Err(BertErrorTrace::from_error_kind(input, GrammarKind::Eof));
    }
    let first: u8 = input[0];
    if first == 0x69 {
        match integer::<i64>(input) {
            Ok((rest, number)) => Ok((Value::Int(number), rest)),
            Err(e) => Err(e),
        }
    } else if is_digit(first) {
        match bytes(input) {
            Ok((rest, body)) => Ok((Value::Bytes(vstd::slice::slice_to_vec(body)), rest)),
            Err(e) => Err(e),
        }
    } else if first == 0x6c || first == 0x64 {
        if depth == 0 {
            let inner = BertErrorTrace::from_error_kind(input, GrammarKind::TooLarge);
            return Err(BertErrorTrace::add_context(input, ContextLabel::Value, inner));
        }
        let inside = slice_subrange(input, 1, input.len());
        if first == 0x6c {
            match decode_items(inside, depth - 1) {
                Ok((items, rest)) => {
                    proof {
                        lemma_list_view(items);
                    }
                    Ok((Value::List(items), rest))
                },
                Err(e) => Err(BertErrorTrace::add_context(input, ContextLabel::List, e)),
            }
        } else {
            match decode_pairs(inside, depth - 1) {
                Ok((pairs, rest)) => {
                    proof {
                        lemma_dict_view(pairs);
                    }
                    Ok((Value::Dict(pairs), rest))
                },
                Err(e) => Err(BertErrorTrace::add_context(input, ContextLabel::Dictionary, e)),
            }
        }
    } else {
        let inner = BertErrorTrace::from_error_kind(input, GrammarKind::Alt);
        Err(BertErrorTrace::add_context(input, ContextLabel::Value, inner))
    }
}

/// Decode the inside of a list: its values, and the input that follows the
/// `e` that closes it.
pub fn decode_items(input: &[u8], depth: usize) -> (r: Result<(Vec<Value>, &[u8]), BertErrorTrace>)
    ensures
        match spec_decode_items(input@, depth as nat) {
            Ok((items, rest)) => r matches Ok(found) && spec_views(found.0@) == items && found.1@
                == rest,
            Err(trail) => r matches Err(e) && e@ == trail,
        },
    decreases depth, 1nat,
{
    let mut items: Vec<Value> = Vec::new();
    let mut current: &[u8] = input;
    assert(spec_views(items@) + Seq::<ValueView>::empty() =~= Seq::<ValueView>::empty());
    loop
        invariant
            spec_decode_items(input@, depth as nat) == spec_prepend_items(
                spec_views(items@),
                spec_decode_items(current@, depth as nat),
            ),
        decreases current@.len(),
    {
        if current.len() == 0 {
            return Err(BertErrorTrace::from_error_kind(current, GrammarKind::Eof));
        }
        if current[0] == 0x65 {
            assert(spec_views(items@) + Seq::<ValueView>::empty() =~= spec_views(items@));
            return Ok((items, slice_subrange(current, 1, current.len())));
        }
        match decode_value(current, depth) {
            Err(e) => {
                return Err(e);
            },
            Ok((value, rest)) => {
                proof {
                    lemma_value_consumes(current@, depth as nat);
                    let before = spec_views(items@);
                    let tail = spec_decode_items(rest@, depth as nat);
                    assert(spec_views(items@.push(value)) =~= before + seq![value@]);
                    match tail {
                        Ok((more, after)) => {
                            assert((before + seq![value@]) + more =~= before + (seq![value@]
                                + more));
                        },
                        Err(_) => {},
                    }
                }
                items.push(value);
                current = rest;
            },
        }
    }
}

/// Decode the inside of a dictionary: its keys and values, in their order,
/// and the input that follows the `e` that closes it.
pub fn decode_pairs(input: &[u8], depth: usize) -> (r: Result<
    (Vec<(Vec<u8>, Value)>, &[u8]),
    BertErrorTrace,
>)
    ensures
        match spec_decode_pairs(input@, depth as nat) {
            Ok((pairs, rest)) => r matches Ok(found) && spec_pair_views(found.0@) == pairs
                && found.1@ == rest,
            Err(trail) => r matches Err(e) && e@ == trail,
        },
    decreases depth, 1nat,
{
    let mut pairs: Vec<(Vec<u8>, Value)> = Vec::new();
    let mut current: &[u8] = input;
    assert(spec_pair_views(pairs@) + Seq::<(Seq<u8>, ValueView)>::empty() =~= Seq::<
        (Seq<u8>, ValueView),
    >::empty());
    loop
        invariant
            spec_decode_pairs(input@, depth as nat) == spec_prepend_pairs(
                spec_pair_views(pairs@),
                spec_decode_pairs(current@, depth as nat),
            ),
        decreases current@.len(),
    {
        if current.len() == 0 {
            return Err(BertErrorTrace::from_error_kind(current, GrammarKind::Eof));
        }
        if current[0] == 0x65 {
            assert(spec_pair_views(pairs@) + Seq::<(Seq<u8>, ValueView)>::empty()
                =~= spec_pair_views(pairs@));
            return Ok((pairs, slice_subrange(current, 1, current.len())));
        }
        let (after_key, key) = match bytes(current) {
            Err(e) => {
                return Err(
                    BertErrorTrace::add_context(current, ContextLabel::DictionaryKey, e),
                );
            },
            Ok(found) => found,
        };
        proof {
            crate::bencode::bytes::lemma_bytes_consumes(current@);
        }
        match decode_value(after_key, depth) {
            Err(e) => {
                return Err(e);
            },
            Ok((value, rest)) => {
                let key = vstd::slice::slice_to_vec(key);
                proof {
                    lemma_value_consumes(after_key@, depth as nat);
                    let before = spec_pair_views(pairs@);
                    let tail = spec_decode_pairs(rest@, depth as nat);
                    assert(spec_pair_views(pairs@.push((key, value))) =~= before + seq![
                        (key@, value@),
                    ]);
                    match tail {
                        Ok((more, after)) => {
                            assert((before + seq![(key@, value@)]) + more =~= before + (seq![
                                (key@, value@),
                            ] + more));
                        },
                        Err(_) => {},
                    }
                }
                pairs.push((key, value));
                current = rest;
            },
        }
    }
}

/// Write a value behind what `out` holds.
pub fn encode_value(value: &Value, out: &mut Vec<u8>)
    ensures
        final(out)@ == old(out)@ + spec_encode_value(value@),
    decreases value,
{
    match value {
        Value::Int(n) => {
            encode_integer(n, out);
        },
        Value::Bytes(b) => {
            encode_bytes(b.as_slice(), out);
        },
        Value::List(items) => {
            proof {
                lemma_list_view(*items);
            }
            let ghost views = spec_views(items@);
            out.push(0x6c);
            let mut i: usize = 0;
            while i < items.len()
                invariant
                    i <= items@.len(),
                    views == spec_views(items@),
                    *value == Value::List(*items),
                    out@ + spec_encode_items(views, i as int) == old(out)@ + seq![0x6cu8]
                        + spec_encode_items(views, 0),
                decreases items@.len() - i,
            {
                let ghost before = out@;
                proof {
                    vstd::std_specs::vec::axiom_vec_index_decreases(*items, i as int);
                    assert(value->List_0 == *items);
                    assert(decreases_to!(*value => items[i as int]));
                }
                encode_value(&items[i], out);
                proof {
                    assert(views[i as int] == items@[i as int]@);
                    assert((before + spec_encode_value(views[i as int])) + spec_encode_items(
                        views,
                        i + 1,
                    ) =~= before + spec_encode_items(views, i as int));
                }
                i += 1;
            }
            let ghost before = out@;
            out.push(0x65);
            assert(final(out)@ =~= old(out)@ + spec_encode_value(value@)) by {
                assert(spec_encode_items(views, i as int) =~= Seq::<u8>::empty());
                assert(before =~= old(out)@ + seq![0x6cu8] + spec_encode_items(views, 0));
            }
        },
        Value::Dict(pairs) => {
            proof {
                lemma_dict_view(*pairs);
            }
            let ghost views = spec_pair_views(pairs@);
            out.push(0x64);
            let mut i: usize = 0;
            while i < pairs.len()
                invariant
                    i <= pairs@.len(),
                    views == spec_pair_views(pairs@),
                    *value == Value::Dict(*pairs),
                    out@ + spec_encode_pairs(views, i as int) == old(out)@ + seq![0x64u8]
                        + spec_encode_pairs(views, 0),
                decreases pairs@.len() - i,
            {
                let ghost before = out@;
                encode_bytes(pairs[i].0.as_slice(), out);
                proof {
                    vstd::std_specs::vec::axiom_vec_index_decreases(*pairs, i as int);
                    assert(value->Dict_0 == *pairs);
                    assert(decreases_to!(*value => value->Dict_0));
                    assert(decreases_to!(*value => pairs[i as int].1));
                }
                encode_value(&pairs[i].1, out);
                proof {
                    assert(views[i as int] == (pairs@[i as int].0@, pairs@[i as int].1@));
                    assert(((before + spec_encode_bytes(views[i as int].0)) + spec_encode_value(
                        views[i as int].1,
                    )) + spec_encode_pairs(views, i + 1) =~= before + spec_encode_pairs(
                        views,
                        i as int,
                    ));
                }
                i += 1;
            }
            let ghost before = out@;
            out.push(0x65);
            assert(final(out)@ =~= old(out)@ + spec_encode_value(value@)) by {
                assert(spec_encode_pairs(views, i as int) =~= Seq::<u8>::empty());
                assert(before =~= old(out)@ + seq![0x64u8] + spec_encode_pairs(views, 0));
            }
        },
    }
}

/// Decode a whole input as one value: nothing may follow the value.
pub fn from_bytes(input: &[u8]) -> (r: Result<Value, BertErrorTrace>)
    ensures
        match spec_from_bytes(input@) {
            Ok(value) => r matches Ok(found) && found@ == value,
            Err(trail) => r matches Err(e) && e@ == trail,
        },
{
    match decode_value(input, MAX_DEPTH) {
        Err(e) => Err(e),
        Ok((value, rest)) => {
            if rest.len() == 0 {
                Ok(value)
            } else {
                let inner = BertErrorTrace::from_error_kind(rest, GrammarKind::Eof);
                Err(BertErrorTrace::add_context(input, ContextLabel::Value, inner))
            }
        },
    }
}

/// What a whole input is as one value: it must decode, and nothing may
/// follow the value.
pub open spec fn spec_from_bytes(input: Seq<u8>) -> Result<ValueView, Seq<BertErrorView>> {
    match spec_decode_value(input, MAX_DEPTH as nat) {
        Err(trail) => Err(trail),
        Ok((value, rest)) => if rest.len() == 0 {
            Ok(value)
        } else {
            Err(
                seq![
                    spec_grammar(rest, GrammarKind::Eof),
                    spec_context(input, ContextLabel::Value),
                ],
            )
        },
    }
}

/// The Bencode of a value.
pub fn to_bytes(value: &Value) -> (r: Vec<u8>)
    ensures
        r@ == spec_encode_value(value@),
{
    let mut out: Vec<u8> = Vec::new();
    encode_value(value, &mut out);
    assert(out@ =~= spec_encode_value(value@));
    out
}

/// The place of the first entry of a dictionary with the key `key`, from
/// the place `from` on.
pub open spec fn spec_lookup_from(pairs: Seq<(Seq<u8>, ValueView)>, key: Seq<u8>, from: int) -> Option<
    int,
>
    decreases pairs.len() - from,
{
    if from < 0 || from >= pairs.len() {
        None
    } else if pairs[from].0 == key {
        Some(from)
    } else {
        spec_lookup_from(pairs, key, from + 1)
    }
}

/// The place of the first entry of a dictionary with the key `key`.
pub open spec fn spec_lookup(pairs: Seq<(Seq<u8>, ValueView)>, key: Seq<u8>) -> Option<int> {
    spec_lookup_from(pairs, key, 0)
}

/// The value that a dictionary holds under `key`: that of the first entry
/// with the key.
pub open spec fn spec_get(pairs: Seq<(Seq<u8>, ValueView)>, key: Seq<u8>) -> Option<ValueView> {
    match spec_lookup(pairs, key) {
        Some(i) => Some(pairs[i].1),
        None => None,
    }
}

/// The place of the first entry of a dictionary with the key `key`.
pub fn lookup(pairs: &Vec<(Vec<u8>, Value)>, key: &str) -> (r: Option<usize>)
    ensures
        match spec_lookup(spec_pair_views(pairs@), key.spec_bytes()) {
            Some(i) => r matches Some(found) && found == i && 0 <= i < pairs@.len(),
            None => r is None,
        },
{
    let wanted = key.as_bytes();
    let ghost views = spec_pair_views(pairs@);
    let mut i: usize = 0;
    while i < pairs.len()
        invariant
            i <= pairs@.len(),
            views == spec_pair_views(pairs@),
            wanted@ == key.spec_bytes(),
            spec_lookup(views, wanted@) == spec_lookup_from(views, wanted@, i as int),
        decreases pairs@.len() - i,
    {
        assert(views[i as int].0 == pairs@[i as int].0@);
        if crate::text::bytes_eq(pairs[i].0.as_slice(), wanted) {
            return Some(i);
        }
        i += 1;
    }
    None
}

/// The kind of a value.
pub open spec fn spec_kind(v: ValueView) -> crate::error::ValueKind {
    match v {
        ValueView::Int(_) => crate::error::ValueKind::Int,
        ValueView::Bytes(_) => crate::error::ValueKind::Bytes,
        ValueView::List(_) => crate::error::ValueKind::List,
        ValueView::Dict(_) => crate::error::ValueKind::Dict,
    }
}

impl Value {
    /// The kind of the value.
    pub fn kind(&self) -> (r: crate::error::ValueKind)
        ensures
            r == spec_kind(self@),
    {
        match self {
            Value::Int(_) => crate::error::ValueKind::Int,
            Value::Bytes(_) => crate::error::ValueKind::Bytes,
            Value::List(items) => {
                proof {
                    lemma_list_view(*items);
                }
                crate::error::ValueKind::List
            },
            Value::Dict(pairs) => {
                proof {
                    lemma_dict_view(*pairs);
                }
                crate::error::ValueKind::Dict
            },
        }
    }

    /// The integer that the value is, if it is one.
    pub fn as_int(&self) -> (r: Option<i64>)
        ensures
            match self@ {
                ValueView::Int(n) => r == Some(n),
                _ => r is None,
            },
    {
        match self {
            Value::Int(n) => Some(*n),
            _ => None,
        }
    }

    /// The bytes that the value is, if it is a byte string.
    pub fn as_bytes(&self) -> (r: Option<&[u8]>)
        ensures
            match self@ {
                ValueView::Bytes(b) => r matches Some(found) && found@ == b,
                _ => r is None,
            },
    {
        match self {
            Value::Bytes(b) => Some(b.as_slice()),
            _ => None,
        }
    }

    /// The values of the list that the value is, if it is one.
    pub fn as_list(&self) -> (r: Option<&Vec<Value>>)
        ensures
            match self@ {
                ValueView::List(items) => r matches Some(found) && spec_views(found@) == items
                    && *self == Value::List(*found),
                _ => r is None,
            },
    {
        match self {
            Value::List(items) => {
                proof {
                    lemma_list_view(*items);
                }
                Some(items)
            },
            _ => None,
        }
    }

    /// The keys and values of the dictionary that the value is, if it is
    /// one.
    pub fn as_dict(&self) -> (r: Option<&Vec<(Vec<u8>, Value)>>)
        ensures
            match self@ {
                ValueView::Dict(pairs) => r matches Some(found) && spec_pair_views(found@)
                    == pairs && *self == Value::Dict(*found),
                _ => r is None,
            },
    {
        match self {
            Value::Dict(pairs) => {
                proof {
                    lemma_dict_view(*pairs);
                }
                Some(pairs)
            },
            _ => None,
        }
    }
}

} // verus!
