//! Hexadecimal text and packed bytes.
//!
//! A byte is written as two hexadecimal digits, the high nibble first.
//! Decoding accepts either case; encoding always writes lower case.

use crate::text::ascii_to_string;
use crate::text::spec_ascii_chars;
use crate::text::spec_is_ascii;
use vstd::prelude::*;
use vstd::string::StringSliceAdditionalSpecFns;

verus! {

/// Why a text is not the hexadecimal form of a byte string.
#[derive(Debug, Clone, Copy, PartialEq, Eq)]
pub enum HexError {
    /// The text is empty or has an odd number of bytes; holds that number.
    InvalidLength(usize),
    /// A byte that is no hexadecimal digit; holds the byte after lower-casing.
    InvalidDigit(u8),
}

/// The lower-case form of an ASCII letter; any other byte is unchanged.
pub open spec fn spec_ascii_lower(b: u8) -> u8 {
    if 0x41 <= b <= 0x5a {
        (b + 0x20) as u8
    } else {
        b
    }
}

/// Whether `b` is one of `0-9`, `a-f`, `A-F`.
pub open spec fn spec_is_hex_digit(b: u8) -> bool {
    (0x30 <= b <= 0x39) || (0x61 <= b <= 0x66) || (0x41 <= b <= 0x46)
}

/// The value, 0 to 15, of a lower-case hexadecimal digit.
pub open spec fn spec_hex_value(b: u8) -> Option<u8> {
    if 0x30 <= b <= 0x39 {
        Some((b - 0x30) as u8)
    } else if 0x61 <= b <= 0x66 {
        Some((b - 0x61 + 10) as u8)
    } else {
        None
    }
}

/// The lower-case hexadecimal digit of a nibble.
pub open spec fn spec_hex_digit(nibble: u8) -> u8 {
    if nibble < 10 {
        (0x30 + nibble) as u8
    } else {
        (0x61 + (nibble - 10)) as u8
    }
}

/// Two nibbles joined into one byte, the first one high.
pub open spec fn spec_pack(hi: u8, lo: u8) -> u8 {
    (hi << 4) | lo
}

/// The byte that a pair of hexadecimal digits stands for, or the first digit
/// of the pair (lower-cased) that is none.
pub open spec fn spec_decode_pair(a: u8, b: u8) -> Result<u8, HexError> {
    let hi = spec_hex_value(spec_ascii_lower(a));
    let lo = spec_hex_value(spec_ascii_lower(b));
    match (hi, lo) {
        (Some(h), Some(l)) => Ok(spec_pack(h, l)),
        (None, _) => Err(HexError::InvalidDigit(spec_ascii_lower(a))),
        (_, None) => Err(HexError::InvalidDigit(spec_ascii_lower(b))),
    }
}

/// The bytes that the first `2 * n` digits of `text` stand for, or the error of
/// the first pair that stands for none.
pub open spec fn spec_decode_pairs(text: Seq<u8>, n: nat) -> Result<Seq<u8>, HexError>
    recommends
        2 * n <= text.len(),
    decreases n,
{
    if n == 0 {
        Ok(Seq::empty())
    } else {
        match spec_decode_pairs(text, (n - 1) as nat) {
            Err(e) => Err(e),
            Ok(front) => match spec_decode_pair(text[2 * n - 2], text[2 * n - 1]) {
                Err(e) => Err(e),
                Ok(byte) => Ok(front.push(byte)),
            },
        }
    }
}

/// What a hexadecimal text decodes to: its length must be even and not zero,
/// and every pair of digits gives one byte.
pub open spec fn spec_decode_hex(text: Seq<u8>) -> Result<Seq<u8>, HexError> {
    if text.len() % 2 != 0 || text.len() == 0 {
        Err(HexError::InvalidLength(text.len() as usize))
    } else {
        spec_decode_pairs(text, text.len() / 2)
    }
}

/// The lower-case hexadecimal text of a byte string.
pub open spec fn spec_encode_hex(bytes: Seq<u8>) -> Seq<u8> {
    Seq::new(
        2 * bytes.len(),
        |i: int|
            if i % 2 == 0 {
                spec_hex_digit(bytes[i / 2] >> 4)
            } else {
                spec_hex_digit(bytes[i / 2] & 0x0f)
            },
    )
}

/// A text with every ASCII letter in lower case.
pub open spec fn spec_lower(text: Seq<u8>) -> Seq<u8> {
    Seq::new(text.len(), |i: int| spec_ascii_lower(text[i]))
}

/// The lower-case form of an ASCII letter.
pub fn ascii_lower(b: u8) -> (r: u8)
    ensures
        r == spec_ascii_lower(b),
{
    if 0x41 <= b && b <= 0x5a {
        b + 0x20
    } else {
        b
    }
}

/// Map a lower-case hexadecimal digit to its value.
pub fn hex_to_byte(ch: u8) -> (r: Result<u8, HexError>)
    ensures
        match spec_hex_value(ch) {
            Some(v) => r == Ok::<u8, HexError>(v) && v < 16,
            None => r == Err::<u8, HexError>(HexError::InvalidDigit(ch)),
        },
{
    if 0x30 <= ch && ch <= 0x39 {
        Ok(ch - 0x30)
    } else if 0x61 <= ch && ch <= 0x66 {
        Ok(ch - 0x61 + 10)
    } else {
        Err(HexError::InvalidDigit(ch))
    }
}

/// Pack two nibbles into a single byte.
pub fn pack_bytes(bytes: [u8; 2]) -> (r: u8)
    ensures
        r == spec_pack(bytes[0], bytes[1]),
        bytes[0] < 16 && bytes[1] < 16 ==> r == bytes[0] * 16 + bytes[1],
{
    let hi: u8 = bytes[0];
    let lo: u8 = bytes[1];
    assert(hi < 16 && lo < 16 ==> ((hi << 4) | lo) == hi * 16 + lo) by (bit_vector);
    (hi << 4) | lo
}

/// Pack two nibbles into a single byte.
pub fn pack(bytes: [u8; 2]) -> (r: u8)
    ensures
        r == spec_pack(bytes[0], bytes[1]),
        bytes[0] < 16 && bytes[1] < 16 ==> r == bytes[0] * 16 + bytes[1],
{
    pack_bytes(bytes)
}

/// Split a byte into its high and its low nibble.
pub fn unpack_byte(byte: u8) -> (r: [u8; 2])
    ensures
        r[0] == byte >> 4,
        r[1] == byte & 0x0f,
        r[0] < 16,
        r[1] < 16,
        spec_pack(r[0], r[1]) == byte,
{
    assert((byte >> 4) < 16 && (byte & 0x0f) < 16 && (((byte >> 4) << 4) | (byte & 0x0f)) == byte)
        by (bit_vector);
    [byte >> 4, byte & 0x0f]
}

/// An error of a pair of digits stays the error of every longer run of pairs.
pub proof fn lemma_decode_pairs_error(text: Seq<u8>, k: nat, n: nat)
    requires
        k <= n,
        spec_decode_pairs(text, k) is Err,
    ensures
        spec_decode_pairs(text, n) == spec_decode_pairs(text, k),
    decreases n,
{
    if k < n {
        lemma_decode_pairs_error(text, k, (n - 1) as nat);
    }
}

/// A run of pairs that decodes gives one byte for each pair.
pub proof fn lemma_decode_pairs_len(text: Seq<u8>, n: nat)
    requires
        spec_decode_pairs(text, n) is Ok,
    ensures
        spec_decode_pairs(text, n).unwrap().len() == n,
        forall|k: nat| k <= n ==> (#[trigger] spec_decode_pairs(text, k)) is Ok,
    decreases n,
{
    if n > 0 {
        lemma_decode_pairs_len(text, (n - 1) as nat);
    }
}

/// A byte string that is read and written as hexadecimal text.
#[derive(Debug, Clone, PartialEq, Eq, Hash)]
pub struct HexBytes {
    bytes: Vec<u8>,
}

impl View for HexBytes {
    type V = Seq<u8>;

    closed spec fn view(&self) -> Seq<u8> {
        self.bytes@
    }
}

impl HexBytes {
    /// Wrap raw bytes; nothing is checked, since every byte string has a
    /// hexadecimal form.
    pub fn new(bytes: Vec<u8>) -> (r: Self)
        ensures
            r@ == bytes@,
    {
        HexBytes { bytes }
    }

    /// Decode hexadecimal text of either case.
    ///
    /// The text must have an even, non-zero number of bytes, each of them a
    /// hexadecimal digit. The first pair with a byte that is no digit is
    /// reported, and of that pair the first such byte.
    pub fn from_hex_str(maybe_hex: &str) -> (r: Result<Self, HexError>)
        ensures
            match spec_decode_hex(maybe_hex.spec_bytes()) {
                Ok(bytes) => r is Ok && r.unwrap()@ == bytes,
                Err(e) => r == Err::<Self, HexError>(e),
            },
    {
        let text = maybe_hex.as_bytes();
        let len: usize = text.len();
        if len % 2 != 0 || len == 0 {
            return Err(HexError::InvalidLength(len));
        }
        let pairs: usize = len / 2;
        let mut bytes: Vec<u8> = Vec::new();
        let mut i: usize = 0;
        while i < pairs
            invariant
                i <= pairs,
                pairs * 2 == len,
                len == text@.len(),
                text@ == maybe_hex.spec_bytes(),
                spec_decode_pairs(text@, i as nat) == Ok::<Seq<u8>, HexError>(bytes@),
            decreases pairs - i,
        {
            let upper: u8 = ascii_lower(text[2 * i]);
            let lower: u8 = ascii_lower(text[2 * i + 1]);
            let hi = hex_to_byte(upper);
            let lo = hex_to_byte(lower);
            assert(spec_decode_pairs(text@, (i + 1) as nat) == match spec_decode_pair(
                text@[2 * i as int],
                text@[2 * i + 1],
            ) {
                Err(e) => Err::<Seq<u8>, HexError>(e),
                Ok(byte) => Ok(bytes@.push(byte)),
            });
            match (hi, lo) {
                (Ok(h), Ok(l)) => {
                    bytes.push(pack_bytes([h, l]));
                },
                (Err(e), _) => {
                    proof {
                        lemma_decode_pairs_error(text@, (i + 1) as nat, pairs as nat);
                    }
                    return Err(e);
                },
                (_, Err(e)) => {
                    proof {
                        lemma_decode_pairs_error(text@, (i + 1) as nat, pairs as nat);
                    }
                    return Err(e);
                },
            }
            i += 1;
        }
        Ok(HexBytes { bytes })
    }

    /// The number of bytes stored.
    pub fn len(&self) -> (r: usize)
        ensures
            r == self@.len(),
    {
        self.bytes.len()
    }

    /// Whether no byte is stored.
    pub fn is_empty(&self) -> (r: bool)
        ensures
            r == (self@.len() == 0),
    {
        self.bytes.len() == 0
    }

    /// The stored bytes.
    pub fn as_slice(&self) -> (r: &[u8])
        ensures
            r@ == self@,
    {
        self.bytes.as_slice()
    }

    /// The stored bytes, one by one, as a fresh vector.
    pub fn iter(&self) -> (r: Vec<u8>)
        ensures
            r@ == self@,
    {
        self.bytes.clone()
    }

    /// The lower-case hexadecimal digits of the stored bytes, two for each.
    pub fn to_hex(&self) -> (r: Vec<u8>)
        ensures
            r@ == spec_encode_hex(self@),
            spec_is_ascii(r@),
    {
        let mut out: Vec<u8> = Vec::new();
        let mut i: usize = 0;
        while i < self.bytes.len()
            invariant
                i <= self.bytes@.len(),
                out@.len() == 2 * i,
                forall|k: int| 0 <= k < 2 * i ==> out@[k] == #[trigger] spec_encode_hex(self@)[k],
                spec_is_ascii(out@),
            decreases self.bytes@.len() - i,
        {
            let nibbles = unpack_byte(self.bytes[i]);
            out.push(hex_digit(nibbles[0]));
            out.push(hex_digit(nibbles[1]));
            i += 1;
        }
        assert(out@ =~= spec_encode_hex(self@));
        out
    }

    /// The stored bytes as text: lower-case hexadecimal digits, two for each
    /// byte.
    pub fn to_string(&self) -> (r: String)
        ensures
            r@ == spec_ascii_chars(spec_encode_hex(self@)),
    {
        let digits = self.to_hex();
        ascii_to_string(digits.as_slice())
    }
}

/// The lower-case hexadecimal digit of a nibble.
pub fn hex_digit(nibble: u8) -> (r: u8)
    requires
        nibble < 16,
    ensures
        r == spec_hex_digit(nibble),
        spec_hex_value(r) == Some(nibble),
        r < 128,
{
    if nibble < 10 {
        0x30 + nibble
    } else {
        0x61 + (nibble - 10)
    }
}

/// The two nibbles of a byte, the high one first.
pub open spec fn spec_nibbles(byte: u8) -> Seq<u8> {
    seq![byte >> 4, byte & 0x0f]
}

/// Walks over bytes and hands out each as its two nibbles.
#[derive(Debug)]
pub struct Nibbles {
    bytes: Vec<u8>,
    pos: usize,
}

impl Nibbles {
    #[verifier::type_invariant]
    spec fn wf(&self) -> bool {
        self.pos <= self.bytes@.len()
    }

    /// The bytes that are still to come.
    pub closed spec fn remaining(&self) -> Seq<u8> {
        self.bytes@.skip(self.pos as int)
    }

    /// Start at the first of `bytes`.
    pub fn new(bytes: Vec<u8>) -> (r: Self)
        ensures
            r.remaining() == bytes@,
    {
        assert(bytes@.skip(0) =~= bytes@);
        Nibbles { bytes, pos: 0 }
    }

    /// The nibbles of the next byte, or `None` once all bytes are used up, and
    /// then `None` again at every later call.
    pub fn next(&mut self) -> (r: Option<[u8; 2]>)
        ensures
            old(self).remaining().len() == 0 ==> r is None && final(self).remaining() == old(
                self,
            ).remaining(),
            old(self).remaining().len() > 0 ==> r is Some && r.unwrap()@ == spec_nibbles(
                old(self).remaining()[0],
            ) && final(self).remaining() == old(self).remaining().drop_first(),
    {
        proof {
            use_type_invariant(&*self);
        }
        if self.pos < self.bytes.len() {
            let pair = unpack_byte(self.bytes[self.pos]);
            assert(self.bytes@.skip(self.pos as int).drop_first() =~= self.bytes@.skip(
                self.pos + 1,
            ));
            assert(pair@ =~= spec_nibbles(self.bytes@[self.pos as int]));
            self.pos += 1;
            Some(pair)
        } else {
            None
        }
    }

    /// Bounds on the number of pairs still to come: both are that number.
    pub fn size_hint(&self) -> (r: (usize, Option<usize>))
        ensures
            r.0 == self.remaining().len(),
            r.1 == Some(r.0),
    {
        let n: usize = self.len();
        (n, Some(n))
    }

    /// The number of pairs still to come.
    pub fn len(&self) -> (r: usize)
        ensures
            r == self.remaining().len(),
    {
        proof {
            use_type_invariant(self);
        }
        self.bytes.len() - self.pos
    }

    /// Pack the pairs that are still to come: the result hands out the
    /// remaining bytes themselves.
    pub fn packed_hex(self) -> (r: PackedHex)
        ensures
            r.remaining().len() == self.remaining().len(),
            forall|i: int|
                0 <= i < self.remaining().len() ==> (#[trigger] r.remaining()[i])@ == spec_nibbles(
                    self.remaining()[i],
                ),
    {
        proof {
            use_type_invariant(&self);
        }
        let mut pairs: Vec<[u8; 2]> = Vec::new();
        let mut i: usize = self.pos;
        while i < self.bytes.len()
            invariant
                self.pos <= i <= self.bytes@.len(),
                pairs@.len() == i - self.pos,
                forall|k: int|
                    0 <= k < pairs@.len() ==> (#[trigger] pairs@[k])@ == spec_nibbles(
                        self.bytes@[self.pos + k],
                    ),
            decreases self.bytes@.len() - i,
        {
            let pair = unpack_byte(self.bytes[i]);
            assert(pair@ =~= spec_nibbles(self.bytes@[i as int]));
            pairs.push(pair);
            i += 1;
        }
        assert(pairs@.skip(0) =~= pairs@);
        PackedHex { pairs, pos: 0 }
    }
}

impl Clone for Nibbles {
    fn clone(&self) -> (r: Self)
        ensures
            r.remaining() == self.remaining(),
    {
        proof {
            use_type_invariant(self);
        }
        Nibbles { bytes: self.bytes.clone(), pos: self.pos }
    }
}

/// Walks over pairs of nibbles and hands out each as one byte.
#[derive(Debug)]
pub struct PackedHex {
    pairs: Vec<[u8; 2]>,
    pos: usize,
}

impl PackedHex {
    #[verifier::type_invariant]
    spec fn wf(&self) -> bool {
        self.pos <= self.pairs@.len()
    }

    /// The pairs that are still to come.
    pub closed spec fn remaining(&self) -> Seq<[u8; 2]> {
        self.pairs@.skip(self.pos as int)
    }

    /// Start at the first of `pairs`.
    pub fn new(pairs: Vec<[u8; 2]>) -> (r: Self)
        ensures
            r.remaining() == pairs@,
    {
        assert(pairs@.skip(0) =~= pairs@);
        PackedHex { pairs, pos: 0 }
    }

    /// The next pair packed into a byte, or `None` once all pairs are used up,
    /// and then `None` again at every later call.
    pub fn next(&mut self) -> (r: Option<u8>)
        ensures
            old(self).remaining().len() == 0 ==> r is None && final(self).remaining() == old(
                self,
            ).remaining(),
            old(self).remaining().len() > 0 ==> r == Some(
                spec_pack(old(self).remaining()[0][0], old(self).remaining()[0][1]),
            ) && final(self).remaining() == old(self).remaining().drop_first(),
    {
        proof {
            use_type_invariant(&*self);
        }
        if self.pos < self.pairs.len() {
            let byte = pack_bytes(self.pairs[self.pos]);
            assert(self.pairs@.skip(self.pos as int).drop_first() =~= self.pairs@.skip(
                self.pos + 1,
            ));
            self.pos += 1;
            Some(byte)
        } else {
            None
        }
    }

    /// Bounds on the number of bytes still to come: both are that number.
    pub fn size_hint(&self) -> (r: (usize, Option<usize>))
        ensures
            r.0 == self.remaining().len(),
            r.1 == Some(r.0),
    {
        let n: usize = self.len();
        (n, Some(n))
    }

    /// The number of bytes still to come.
    pub fn len(&self) -> (r: usize)
        ensures
            r == self.remaining().len(),
    {
        proof {
            use_type_invariant(self);
        }
        self.pairs.len() - self.pos
    }
}

impl Clone for PackedHex {
    fn clone(&self) -> (r: Self)
        ensures
            r.remaining() == self.remaining(),
    {
        proof {
            use_type_invariant(self);
        }
        let mut pairs: Vec<[u8; 2]> = Vec::new();
        let mut i: usize = 0;
        while i < self.pairs.len()
            invariant
                i <= self.pairs@.len(),
                pairs@ == self.pairs@.take(i as int),
            decreases self.pairs@.len() - i,
        {
            pairs.push(self.pairs[i]);
            assert(self.pairs@.take(i as int).push(self.pairs@[i as int]) =~= self.pairs@.take(
                i + 1,
            ));
            i += 1;
        }
        assert(self.pairs@.take(i as int) =~= self.pairs@);
        PackedHex { pairs, pos: self.pos }
    }
}

/// Whether every byte of `text` is a hexadecimal digit of either case.
pub fn validate_hex(text: &[u8]) -> (r: bool)
    ensures
        r == (forall|i: int| 0 <= i < text@.len() ==> spec_is_hex_digit(#[trigger] text@[i])),
{
    let mut i: usize = 0;
    while i < text.len()
        invariant
            i <= text@.len(),
            forall|k: int| 0 <= k < i ==> spec_is_hex_digit(#[trigger] text@[k]),
        decreases text@.len() - i,
    {
        let b: u8 = text[i];
        let digit = (0x30 <= b && b <= 0x39) || (0x61 <= b && b <= 0x66) || (0x41 <= b && b
            <= 0x46);
        if !digit {
            return false;
        }
        i += 1;
    }
    true
}

/// A source of bytes that can be taken as hexadecimal.
pub trait Hexadecimal: Sized {
    /// The bytes of the source.
    spec fn spec_items(&self) -> Seq<u8>;

    /// A walk over the bytes that hands out each as its two nibbles.
    fn nibbles(self) -> (r: Nibbles)
        ensures
            r.remaining() == self.spec_items(),
    ;

    /// A walk over the nibbles of the bytes that packs each pair again: it
    /// hands out the bytes themselves.
    fn packed_hex(self) -> (r: PackedHex)
        ensures
            r.remaining().len() == self.spec_items().len(),
            forall|i: int|
                0 <= i < self.spec_items().len() ==> (#[trigger] r.remaining()[i])@
                    == spec_nibbles(self.spec_items()[i]),
    ;

    /// Whether every byte is a hexadecimal digit of either case.
    fn validate_hex(&self) -> (r: bool)
        ensures
            r == (forall|i: int|
                0 <= i < self.spec_items().len() ==> spec_is_hex_digit(
                    #[trigger] self.spec_items()[i],
                )),
    ;
}

impl Hexadecimal for Vec<u8> {
    open spec fn spec_items(&self) -> Seq<u8> {
        self@
    }

    fn nibbles(self) -> (r: Nibbles) {
        Nibbles::new(self)
    }

    fn packed_hex(self) -> (r: PackedHex) {
        Nibbles::new(self).packed_hex()
    }

    fn validate_hex(&self) -> (r: bool) {
        let text = self.as_slice();
        let r = validate_hex(text);
        proof {
            let items = self.spec_items();
            assert(items == text@);
        }
        r
    }
}

/// The key under which a file tree holds what it says of a file: the empty
/// text.
#[derive(Debug, PartialEq, Eq)]
pub struct EmptyString {
    text: String,
}

impl View for EmptyString {
    type V = Seq<char>;

    closed spec fn view(&self) -> Seq<char> {
        self.text@
    }
}

impl EmptyString {
    #[verifier::type_invariant]
    spec fn wf(&self) -> bool {
        self.text@.len() == 0
    }

    /// The empty text.
    pub fn new() -> (r: Self)
        ensures
            r@.len() == 0,
    {
        EmptyString { text: String::new() }
    }

    /// The text, which is empty.
    pub fn as_str(&self) -> (r: &str)
        ensures
            r@ == self@,
            r@.len() == 0,
    {
        proof {
            use_type_invariant(self);
        }
        self.text.as_str()
    }

    /// Whether a key is the empty text.
    pub fn matches(key: &[u8]) -> (r: bool)
        ensures
            r == (key@.len() == 0),
    {
        key.len() == 0
    }
}

/// Packing the two nibbles of a byte gives the byte back.
pub proof fn lemma_pack_nibbles(byte: u8)
    ensures
        spec_pack(byte >> 4, byte & 0x0f) == byte,
        (byte >> 4) < 16,
        (byte & 0x0f) < 16,
{
    assert((byte >> 4) < 16 && (byte & 0x0f) < 16 && (((byte >> 4) << 4) | (byte & 0x0f)) == byte)
        by (bit_vector);
}

/// A pair of lower-case digits written for a byte decodes to that byte.
pub proof fn lemma_pair_round_trip(byte: u8)
    ensures
        spec_decode_pair(spec_hex_digit(byte >> 4), spec_hex_digit(byte & 0x0f)) == Ok::<
            u8,
            HexError,
        >(byte),
{
    lemma_pack_nibbles(byte);
}

/// Writing bytes as hexadecimal text and reading the text gives the bytes
/// back, for every byte string but the empty one, whose text is refused.
pub proof fn lemma_encode_then_decode(bytes: Seq<u8>)
    requires
        bytes.len() > 0,
        2 * bytes.len() <= usize::MAX,
    ensures
        spec_decode_hex(spec_encode_hex(bytes)) == Ok::<Seq<u8>, HexError>(bytes),
{
    let text = spec_encode_hex(bytes);
    lemma_encode_pairs(bytes, bytes.len());
    assert(bytes.take(bytes.len() as int) =~= bytes);
}

proof fn lemma_encode_pairs(bytes: Seq<u8>, n: nat)
    requires
        n <= bytes.len(),
    ensures
        spec_decode_pairs(spec_encode_hex(bytes), n) == Ok::<Seq<u8>, HexError>(
            bytes.take(n as int),
        ),
    decreases n,
{
    if n == 0 {
        assert(bytes.take(0) =~= Seq::<u8>::empty());
    } else {
        lemma_encode_pairs(bytes, (n - 1) as nat);
        lemma_pair_round_trip(bytes[n - 1]);
        let text = spec_encode_hex(bytes);
        assert(text[2 * n - 2] == spec_hex_digit(bytes[n - 1] >> 4));
        assert(text[2 * n - 1] == spec_hex_digit(bytes[n - 1] & 0x0f));
        assert(bytes.take(n - 1).push(bytes[n - 1]) =~= bytes.take(n as int));
    }
}

/// Reading hexadecimal text does not depend on the case of its letters.
pub proof fn lemma_decode_ignores_case(text: Seq<u8>)
    ensures
        spec_decode_hex(spec_lower(text)) == spec_decode_hex(text),
{
    if text.len() % 2 == 0 && text.len() != 0 {
        lemma_decode_pairs_ignores_case(text, text.len() / 2);
    }
}

proof fn lemma_decode_pairs_ignores_case(text: Seq<u8>, n: nat)
    requires
        2 * n <= text.len(),
    ensures
        spec_decode_pairs(spec_lower(text), n) == spec_decode_pairs(text, n),
    decreases n,
{
    if n > 0 {
        lemma_decode_pairs_ignores_case(text, (n - 1) as nat);
        let a = text[2 * n - 2];
        let b = text[2 * n - 1];
        assert(spec_ascii_lower(spec_ascii_lower(a)) == spec_ascii_lower(a));
        assert(spec_ascii_lower(spec_ascii_lower(b)) == spec_ascii_lower(b));
        assert(spec_lower(text)[2 * n - 2] == spec_ascii_lower(a));
        assert(spec_lower(text)[2 * n - 1] == spec_ascii_lower(b));
    }
}

/// Writing what hexadecimal text decodes to gives the text in lower case.
pub proof fn lemma_decode_then_encode(text: Seq<u8>)
    requires
        spec_decode_hex(text) is Ok,
    ensures
        spec_encode_hex(spec_decode_hex(text).unwrap()) == spec_lower(text),
{
    let n = text.len() / 2;
    lemma_decode_pairs_digits(text, n);
    let bytes = spec_decode_hex(text).unwrap();
    assert(spec_encode_hex(bytes) =~= spec_lower(text)) by {
        assert forall|i: int| 0 <= i < text.len() implies spec_encode_hex(bytes)[i] == spec_lower(
            text,
        )[i] by {
            let k = i / 2;
            assert(2 * k <= i < 2 * k + 2);
        }
    }
}

proof fn lemma_decode_pairs_digits(text: Seq<u8>, n: nat)
    requires
        2 * n <= text.len(),
        spec_decode_pairs(text, n) is Ok,
    ensures
        spec_decode_pairs(text, n).unwrap().len() == n,
        forall|k: int|
            0 <= k < n ==> spec_hex_digit(#[trigger] spec_decode_pairs(text, n).unwrap()[k] >> 4)
                == spec_ascii_lower(text[2 * k]) && spec_hex_digit(
                spec_decode_pairs(text, n).unwrap()[k] & 0x0f,
            ) == spec_ascii_lower(text[2 * k + 1]),
    decreases n,
{
    if n > 0 {
        lemma_decode_pairs_digits(text, (n - 1) as nat);
        let a = spec_ascii_lower(text[2 * n - 2]);
        let b = spec_ascii_lower(text[2 * n - 1]);
        let h = spec_hex_value(a).unwrap();
        let l = spec_hex_value(b).unwrap();
        assert(h < 16 && l < 16 ==> (((h << 4) | l) >> 4) == h && (((h << 4) | l) & 0x0f) == l)
            by (bit_vector);
        let front = spec_decode_pairs(text, (n - 1) as nat).unwrap();
        let all = spec_decode_pairs(text, n).unwrap();
        assert(all == front.push(spec_pack(h, l)));
        assert forall|k: int| 0 <= k < n implies spec_hex_digit(#[trigger] all[k] >> 4)
            == spec_ascii_lower(text[2 * k]) && spec_hex_digit(all[k] & 0x0f) == spec_ascii_lower(
            text[2 * k + 1],
        ) by {
            if k < n - 1 {
                assert(all[k] == front[k]);
            }
        }
    }
}

} // verus!
