//! Digests of a fixed length.
//!
//! A digest is a byte string of exactly `N` bytes: 20 for SHA-1, 32 for
//! SHA-256, 16 for MD5. It is made from `N` raw bytes or from `2 * N`
//! hexadecimal digits; nothing but the length is checked, since every byte
//! string of the right length is a possible digest.

use crate::hexadecimal::lemma_decode_pairs_len;
use crate::hexadecimal::spec_decode_hex;
use crate::hexadecimal::spec_decode_pairs;
use crate::hexadecimal::spec_encode_hex;
use crate::hexadecimal::spec_is_hex_digit;
use crate::hexadecimal::HexBytes;
use crate::hexadecimal::HexError;
use crate::text::bytes_eq;
use vstd::prelude::*;
use vstd::std_specs::cmp::PartialEqSpecImpl;
use vstd::string::StringSliceAdditionalSpecFns;

verus! {

/// Why bytes or text are no digest.
#[derive(Debug, Clone, Copy, PartialEq, Eq)]
pub enum DigestError {
    /// The number of bytes is not that of the digest.
    InvalidLength { actual: usize, expected: usize },
    /// The text is no hexadecimal.
    Hex(HexError),
}

/// A digest of `N` bytes.
#[derive(Debug, Hash)]
pub struct Digest<const N: usize> {
    bytes: HexBytes,
}

/// A SHA-1 digest: 160 bits.
pub type Sha1 = Digest<20>;

/// A SHA-1 digest: 160 bits.
pub type Sha1Hash = Digest<20>;

/// A SHA-256 digest: 256 bits.
pub type Sha2 = Digest<32>;

/// A SHA-256 digest: 256 bits.
pub type Sha256 = Digest<32>;

/// An MD5 digest: 128 bits.
pub type Md5 = Digest<16>;

impl<const N: usize> View for Digest<N> {
    type V = Seq<u8>;

    closed spec fn view(&self) -> Seq<u8> {
        self.bytes@
    }
}

/// What raw bytes are as a digest of `n` bytes.
pub open spec fn spec_digest_from_bytes(bytes: Seq<u8>, n: usize) -> Result<Seq<u8>, DigestError> {
    if bytes.len() == n {
        Ok(bytes)
    } else {
        Err(DigestError::InvalidLength { actual: bytes.len() as usize, expected: n })
    }
}

/// What hexadecimal text is as a digest of `n` bytes.
pub open spec fn spec_digest_from_hex(text: Seq<u8>, n: usize) -> Result<Seq<u8>, DigestError> {
    match spec_decode_hex(text) {
        Err(e) => Err(DigestError::Hex(e)),
        Ok(bytes) => spec_digest_from_bytes(bytes, n),
    }
}

impl<const N: usize> Digest<N> {
    #[verifier::type_invariant]
    spec fn wf(&self) -> bool {
        self.bytes@.len() == N
    }

    /// The digest that holds the `N` bytes of `bytes`.
    pub fn new(bytes: [u8; N]) -> (r: Self)
        ensures
            r@ == bytes@,
    {
        let mut copy: Vec<u8> = Vec::new();
        let mut i: usize = 0;
        while i < N
            invariant
                i <= N,
                copy@ == bytes@.take(i as int),
            decreases N - i,
        {
            copy.push(bytes[i]);
            assert(bytes@.take(i as int).push(bytes@[i as int]) =~= bytes@.take(i + 1));
            i += 1;
        }
        assert(bytes@.take(N as int) =~= bytes@);
        Digest { bytes: HexBytes::new(copy) }
    }

    /// Take raw bytes as a digest: they must be `N`.
    pub fn from_bytes(bytes: &[u8]) -> (r: Result<Self, DigestError>)
        ensures
            match spec_digest_from_bytes(bytes@, N) {
                Ok(digest) => r matches Ok(d) && d@ == digest,
                Err(e) => r matches Err(f) && f == e,
            },
    {
        Self::from_hex_bytes(HexBytes::new(vstd::slice::slice_to_vec(bytes)))
    }

    /// Take decoded bytes as a digest: they must be `N`.
    pub fn from_hex_bytes(bytes: HexBytes) -> (r: Result<Self, DigestError>)
        ensures
            match spec_digest_from_bytes(bytes@, N) {
                Ok(digest) => r matches Ok(d) && d@ == digest,
                Err(e) => r matches Err(f) && f == e,
            },
    {
        let len: usize = bytes.len();
        if len != N {
            Err(DigestError::InvalidLength { actual: len, expected: N })
        } else {
            Ok(Digest { bytes })
        }
    }

    /// Decode hexadecimal text of either case as a digest: it must decode,
    /// and to `N` bytes.
    pub fn from_hex_str(text: &str) -> (r: Result<Self, DigestError>)
        ensures
            match spec_digest_from_hex(text.spec_bytes(), N) {
                Ok(digest) => r matches Ok(d) && d@ == digest,
                Err(e) => r matches Err(f) && f == e,
            },
    {
        match HexBytes::from_hex_str(text) {
            Err(e) => Err(DigestError::Hex(e)),
            Ok(bytes) => Self::from_hex_bytes(bytes),
        }
    }

    /// The bytes of the digest.
    pub fn as_slice(&self) -> (r: &[u8])
        ensures
            r@ == self@,
            r@.len() == N,
    {
        proof {
            use_type_invariant(self);
        }
        self.bytes.as_slice()
    }

    /// The digest as lower-case hexadecimal digits, `2 * N` of them.
    pub fn to_hex(&self) -> (r: Vec<u8>)
        ensures
            r@ == spec_encode_hex(self@),
            r@.len() == 2 * N,
    {
        proof {
            use_type_invariant(self);
        }
        self.bytes.to_hex()
    }

    /// The digest as text: lower-case hexadecimal digits.
    pub fn to_string(&self) -> (r: String)
        ensures
            r@ == crate::text::spec_ascii_chars(spec_encode_hex(self@)),
    {
        self.bytes.to_string()
    }
}

impl<const N: usize> Clone for Digest<N> {
    fn clone(&self) -> (r: Self)
        ensures
            r@ == self@,
    {
        proof {
            use_type_invariant(self);
        }
        Digest { bytes: HexBytes::new(self.bytes.iter()) }
    }
}

impl<const N: usize> PartialEqSpecImpl for Digest<N> {
    open spec fn obeys_eq_spec() -> bool {
        true
    }

    open spec fn eq_spec(&self, other: &Self) -> bool {
        self@ == other@
    }
}

impl<const N: usize> PartialEq for Digest<N> {
    fn eq(&self, other: &Self) -> (r: bool) {
        bytes_eq(self.bytes.as_slice(), other.bytes.as_slice())
    }
}

impl<const N: usize> Eq for Digest<N> {

}

/// Text of hexadecimal digits alone, of an even and positive length, decodes
/// to half as many bytes.
pub proof fn lemma_hex_digits_decode(text: Seq<u8>)
    requires
        forall|i: int| 0 <= i < text.len() ==> spec_is_hex_digit(#[trigger] text[i]),
        text.len() % 2 == 0,
        text.len() > 0,
    ensures
        spec_decode_hex(text) is Ok,
        spec_decode_hex(text).unwrap().len() == text.len() / 2,
{
    lemma_hex_digit_pairs(text, text.len() / 2);
    lemma_decode_pairs_len(text, text.len() / 2);
}

proof fn lemma_hex_digit_pairs(text: Seq<u8>, n: nat)
    requires
        forall|i: int| 0 <= i < text.len() ==> spec_is_hex_digit(#[trigger] text[i]),
        2 * n <= text.len(),
    ensures
        spec_decode_pairs(text, n) is Ok,
    decreases n,
{
    if n > 0 {
        lemma_hex_digit_pairs(text, (n - 1) as nat);
        assert(spec_is_hex_digit(text[2 * n - 2]));
        assert(spec_is_hex_digit(text[2 * n - 1]));
    }
}

/// Raw bytes are refused as a digest exactly where their number is not that
/// of the digest.
pub proof fn lemma_digest_bytes_refused(bytes: Seq<u8>, n: usize)
    ensures
        spec_digest_from_bytes(bytes, n) is Err <==> bytes.len() != n,
{
}

/// Text of hexadecimal digits alone is refused as a digest exactly where it
/// does not have two digits for each byte of the digest.
pub proof fn lemma_digest_hex_refused(text: Seq<u8>, n: usize)
    requires
        forall|i: int| 0 <= i < text.len() ==> spec_is_hex_digit(#[trigger] text[i]),
        n > 0,
    ensures
        spec_digest_from_hex(text, n) is Err <==> text.len() != 2 * n,
{
    if text.len() % 2 == 0 && text.len() > 0 {
        lemma_hex_digits_decode(text);
    }
}

/// The case of the letters of a hexadecimal text does not change the digest
/// that it stands for.
pub proof fn lemma_digest_hex_ignores_case(text: Seq<u8>, n: usize)
    ensures
        spec_digest_from_hex(crate::hexadecimal::spec_lower(text), n) == spec_digest_from_hex(
            text,
            n,
        ),
{
    crate::hexadecimal::lemma_decode_ignores_case(text);
}

/// A digest that was read from hexadecimal text is written as that text in
/// lower case.
pub proof fn lemma_digest_hex_canonical(text: Seq<u8>, n: usize)
    requires
        spec_digest_from_hex(text, n) is Ok,
    ensures
        spec_encode_hex(spec_digest_from_hex(text, n).unwrap()) == crate::hexadecimal::spec_lower(
            text,
        ),
{
    crate::hexadecimal::lemma_decode_then_encode(text);
}

} // verus!
