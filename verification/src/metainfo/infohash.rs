//! The info hash of a torrent.
//!
//! A version 1 torrent is known by the SHA-1 digest of its info dictionary,
//! a version 2 torrent by the SHA-256 digest, a torrent of both versions by
//! both. Two info hashes are the same only where they are of the same
//! version: a SHA-1 digest is never the same as a SHA-256 digest.

use crate::crypto::calculateinfohash::sha1_of;
use crate::crypto::calculateinfohash::sha256_of;
use crate::crypto::calculateinfohash::spec_info_bytes;
use crate::crypto::calculateinfohash::CalculateInfoHash;
use crate::crypto::digest::Sha1;
use crate::crypto::digest::Sha2;
use crate::metainfo::resolve::MetaInfo;
use crate::metainfo::resolve::MetaInfoModel;
use vstd::prelude::*;
use vstd::std_specs::cmp::PartialEqSpecImpl;

verus! {

/// Both digests of an info dictionary.
#[derive(Debug)]
pub struct InfoHashAny {
    pub(crate) sha1: Sha1,
    pub(crate) sha2: Sha2,
}

impl InfoHashAny {
    /// The SHA-1 digest, as contracts see it.
    pub closed spec fn spec_sha1(&self) -> Seq<u8> {
        self.sha1@
    }

    /// The SHA-256 digest, as contracts see it.
    pub closed spec fn spec_sha2(&self) -> Seq<u8> {
        self.sha2@
    }

    /// Hash an info dictionary with both digests.
    pub fn calculate_infohash(info_dict: &MetaInfo) -> (r: Self)
        ensures
            r.spec_sha1() == sha1_of(spec_info_bytes(info_dict.model())),
            r.spec_sha2() == sha256_of(spec_info_bytes(info_dict.model())),
    {
        InfoHashAny {
            sha1: Sha1::calculate_infohash(info_dict),
            sha2: Sha2::calculate_infohash(info_dict),
        }
    }

    /// The SHA-1 digest.
    pub fn sha1(&self) -> (r: &Sha1)
        ensures
            r@ == self.spec_sha1(),
    {
        &self.sha1
    }

    /// The SHA-256 digest.
    pub fn sha2(&self) -> (r: &Sha2)
        ensures
            r@ == self.spec_sha2(),
    {
        &self.sha2
    }
}

/// The info hash of a torrent, as its version has it.
#[derive(Debug)]
pub enum InfoHashVersioned<'view> {
    V1(&'view Sha1),
    V2(&'view Sha2),
    Hybrid { sha1: &'view Sha1, sha2: &'view Sha2 },
}

/// The info hash of a torrent as contracts see it.
pub enum InfoHashModel {
    V1(Seq<u8>),
    V2(Seq<u8>),
    Hybrid { sha1: Seq<u8>, sha2: Seq<u8> },
}

impl<'view> View for InfoHashVersioned<'view> {
    type V = InfoHashModel;

    open spec fn view(&self) -> InfoHashModel {
        match self {
            InfoHashVersioned::V1(sha1) => InfoHashModel::V1(sha1@),
            InfoHashVersioned::V2(sha2) => InfoHashModel::V2(sha2@),
            InfoHashVersioned::Hybrid { sha1, sha2 } => InfoHashModel::Hybrid {
                sha1: sha1@,
                sha2: sha2@,
            },
        }
    }
}

/// The info hash of an info dictionary.
pub open spec fn spec_info_hash(model: MetaInfoModel) -> InfoHashModel {
    match model {
        MetaInfoModel::MetaV1(_) => InfoHashModel::V1(sha1_of(spec_info_bytes(model))),
        MetaInfoModel::MetaV2(_) => InfoHashModel::V2(sha256_of(spec_info_bytes(model))),
        MetaInfoModel::Hybrid(_) => InfoHashModel::Hybrid {
            sha1: sha1_of(spec_info_bytes(model)),
            sha2: sha256_of(spec_info_bytes(model)),
        },
    }
}

impl<'view> PartialEqSpecImpl for InfoHashVersioned<'view> {
    open spec fn obeys_eq_spec() -> bool {
        true
    }

    open spec fn eq_spec(&self, other: &Self) -> bool {
        self@ == other@
    }
}

impl<'view> PartialEq for InfoHashVersioned<'view> {
    fn eq(&self, other: &Self) -> (r: bool) {
        match (self, other) {
            (InfoHashVersioned::V1(a), InfoHashVersioned::V1(b)) => {
                let same = *a == *b;
                same
            },
            (InfoHashVersioned::V2(a), InfoHashVersioned::V2(b)) => {
                let same = *a == *b;
                same
            },
            (
                InfoHashVersioned::Hybrid { sha1: a1, sha2: a2 },
                InfoHashVersioned::Hybrid { sha1: b1, sha2: b2 },
            ) => {
                let same1 = *a1 == *b1;
                let same2 = *a2 == *b2;
                same1 && same2
            },
            _ => false,
        }
    }
}

/// A digest of version 1 is never the same info hash as a digest of version
/// 2, whatever their bytes; and two info hashes of both versions are the
/// same only where both digests are the same.
pub proof fn lemma_info_hash_eq(a: InfoHashModel, b: InfoHashModel)
    ensures
        a is V1 && b is V2 ==> a != b,
        a is V1 && b is Hybrid ==> a != b,
        a is V2 && b is Hybrid ==> a != b,
        a is Hybrid && b is Hybrid ==> (a == b <==> a->Hybrid_sha1 == b->Hybrid_sha1
            && a->Hybrid_sha2 == b->Hybrid_sha2),
{
}

} // verus!
