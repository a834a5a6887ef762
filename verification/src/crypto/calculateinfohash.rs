//! The hashing of an info dictionary.
//!
//! A torrent is known by the digest of its info dictionary in canonical
//! Bencode: SHA-1 for a version 1 torrent, SHA-256 for a version 2 torrent,
//! both for a torrent of both versions.
//!
//! The digests are computed by the crates `sha1` and `sha2`. Verus does not
//! see them: `sha1_of` and `sha256_of` name the digest of a byte string, and
//! the contracts of the two calls are stated over them and assumed.

use crate::bencode::value::spec_encode_value;
use crate::bencode::value::to_bytes;
use crate::bencode::value::ValueView;
use crate::crypto::digest::Sha1;
use crate::crypto::digest::Sha2;
use crate::metainfo::encode::dict_value;
use crate::metainfo::encode::spec_encode_info;
use crate::metainfo::resolve::MetaInfo;
use crate::metainfo::resolve::MetaInfoModel;
use digest::Digest;
use vstd::prelude::*;

verus! {

/// The SHA-1 digest of a byte string: 20 bytes.
pub uninterp spec fn sha1_of(bytes: Seq<u8>) -> Seq<u8>;

/// The SHA-256 digest of a byte string: 32 bytes.
pub uninterp spec fn sha256_of(bytes: Seq<u8>) -> Seq<u8>;

/// `Digest::digest` of `sha1::Sha1`. Assumed: the result depends on the
/// bytes alone.
#[verifier::external_body]
fn sha1_digest(bytes: &[u8]) -> (r: [u8; 20])
    ensures
        r@ == sha1_of(bytes@),
{
    sha1::Sha1::digest(bytes).into()
}

/// `Digest::digest` of `sha2::Sha256`. Assumed: the result depends on the
/// bytes alone.
#[verifier::external_body]
fn sha256_digest(bytes: &[u8]) -> (r: [u8; 32])
    ensures
        r@ == sha256_of(bytes@),
{
    sha2::Sha256::digest(bytes).into()
}

/// The canonical Bencode of an info dictionary: the bytes that are hashed.
pub open spec fn spec_info_bytes(model: MetaInfoModel) -> Seq<u8> {
    spec_encode_value(ValueView::Dict(spec_encode_info(model)))
}

/// The canonical Bencode of an info dictionary.
pub fn info_bytes(info: &MetaInfo) -> (r: Vec<u8>)
    ensures
        r@ == spec_info_bytes(info.model()),
{
    let value = dict_value(info.serialize());
    to_bytes(&value)
}

/// A digest that an info dictionary can be hashed to.
pub trait CalculateInfoHash: Sized {
    /// The digest of a byte string.
    spec fn spec_digest(bytes: Seq<u8>) -> Seq<u8>;

    /// The bytes of the digest.
    spec fn spec_bytes(&self) -> Seq<u8>;

    /// The digest of the canonical Bencode of an info dictionary.
    fn calculate_infohash(info: &MetaInfo) -> (r: Self)
        ensures
            r.spec_bytes() == Self::spec_digest(spec_info_bytes(info.model())),
    ;
}

impl CalculateInfoHash for Sha1 {
    open spec fn spec_digest(bytes: Seq<u8>) -> Seq<u8> {
        sha1_of(bytes)
    }

    open spec fn spec_bytes(&self) -> Seq<u8> {
        self@
    }

    fn calculate_infohash(info: &MetaInfo) -> (r: Self) {
        let bytes = info_bytes(info);
        Sha1::new(sha1_digest(bytes.as_slice()))
    }
}

impl CalculateInfoHash for Sha2 {
    open spec fn spec_digest(bytes: Seq<u8>) -> Seq<u8> {
        sha256_of(bytes)
    }

    open spec fn spec_bytes(&self) -> Seq<u8> {
        self@
    }

    fn calculate_infohash(info: &MetaInfo) -> (r: Self) {
        let bytes = info_bytes(info);
        Sha2::new(sha256_digest(bytes.as_slice()))
    }
}

} // verus!
