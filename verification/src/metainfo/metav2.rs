//! The info dictionary of a version 2 torrent.

use crate::bencode::value::spec_pair_views;
use crate::bencode::value::Value;
use crate::bencode::value::ValueView;
use crate::crypto::digest::Sha1;
use crate::dictionary::check_keys;
use crate::dictionary::name;
use crate::dictionary::opt_digest;
use crate::dictionary::opt_tree;
use crate::dictionary::opt_version;
use crate::dictionary::req_piece_length;
use crate::dictionary::spec_check_keys;
use crate::dictionary::spec_name;
use crate::dictionary::spec_opt_digest;
use crate::dictionary::spec_opt_tree;
use crate::dictionary::spec_opt_version;
use crate::dictionary::spec_req_piece_length;
use crate::dictionary::DecodeOptions;
use crate::error::Field;
use crate::error::ParseTorrentError;
use crate::files::filetree::EntryModel;
use crate::files::filetree::FileTree;
use crate::metainfo::boolint::private_flag;
use crate::metainfo::boolint::spec_private;
use crate::pieces::PieceLength;
use vstd::prelude::*;

verus! {

/// The info dictionary of a version 2 torrent.
#[derive(Debug)]
pub struct MetaV2 {
    pub file_tree: FileTree,
    pub name: String,
    /// The meta version, which is at least 2.
    pub meta_version: u8,
    pub piece_length: PieceLength,
    /// The flag `private` as it stands on the wire: not there, 0 or 1.
    pub private: Option<bool>,
    pub root_hash: Sha1,
}

/// The info dictionary of a version 2 torrent as contracts see it.
pub struct MetaV2Model {
    pub file_tree: Seq<(Seq<char>, EntryModel)>,
    pub name: Seq<char>,
    pub meta_version: u8,
    pub piece_length: u64,
    pub private: Option<bool>,
    pub root_hash: Seq<u8>,
}

impl MetaV2 {
    /// What contracts see of the dictionary.
    pub open spec fn model(&self) -> MetaV2Model {
        MetaV2Model {
            file_tree: self.file_tree.model(),
            name: self.name@,
            meta_version: self.meta_version,
            piece_length: self.piece_length@,
            private: self.private,
            root_hash: self.root_hash@,
        }
    }
}

/// The fields that the info dictionary of a version 2 torrent knows.
pub open spec fn spec_v2_fields() -> Seq<Field> {
    seq![
        Field::FileTree,
        Field::Name,
        Field::MetaVersion,
        Field::PieceLength,
        Field::Private,
        Field::RootHash,
    ]
}

/// What a meta version is worth: it must be at least 2.
pub open spec fn spec_check_version(version: u8) -> Result<u8, ParseTorrentError> {
    if version >= 2 {
        Ok(version)
    } else {
        Err(ParseTorrentError::InvalidVersion(version as i64))
    }
}

/// What a dictionary is as the info dictionary of a version 2 torrent. The
/// fields are read in the order `file tree`, `name`, `meta version`,
/// `piece length`, `private`, `root hash`, and the first that is wrong is
/// reported; all but `private` must be there, and the meta version must be
/// at least 2. A key that is none of these is refused, however the torrent
/// is read.
pub open spec fn spec_decode_v2(dict: Seq<(Seq<u8>, ValueView)>, options: DecodeOptions) -> Result<
    MetaV2Model,
    ParseTorrentError,
> {
    match spec_opt_tree(dict, options) {
        Err(e) => Err(e),
        Ok(None) => Err(ParseTorrentError::MissingField(Field::FileTree)),
        Ok(Some(file_tree)) => match spec_name(dict) {
            Err(e) => Err(e),
            Ok(name) => match spec_opt_version(dict) {
                Err(e) => Err(e),
                Ok(None) => Err(ParseTorrentError::MissingField(Field::MetaVersion)),
                Ok(Some(version)) => match spec_check_version(version) {
                    Err(e) => Err(e),
                    Ok(meta_version) => match spec_req_piece_length(dict) {
                        Err(e) => Err(e),
                        Ok(piece_length) => match spec_private(dict) {
                            Err(e) => Err(e),
                            Ok(private) => match spec_opt_digest(dict, Field::RootHash, 20) {
                                Err(e) => Err(e),
                                Ok(None) => Err(ParseTorrentError::MissingField(Field::RootHash)),
                                Ok(Some(root_hash)) => match spec_check_keys(
                                    dict,
                                    spec_v2_fields(),
                                    Field::Info,
                                    true,
                                ) {
                                    Some(e) => Err(e),
                                    None => Ok(
                                        MetaV2Model {
                                            file_tree,
                                            name,
                                            meta_version,
                                            piece_length,
                                            private,
                                            root_hash,
                                        },
                                    ),
                                },
                            },
                        },
                    },
                },
            },
        },
    }
}

/// The fields that the info dictionary of a version 2 torrent knows.
pub fn v2_fields() -> (r: Vec<Field>)
    ensures
        r@ == spec_v2_fields(),
{
    let mut known: Vec<Field> = Vec::new();
    known.push(Field::FileTree);
    known.push(Field::Name);
    known.push(Field::MetaVersion);
    known.push(Field::PieceLength);
    known.push(Field::Private);
    known.push(Field::RootHash);
    assert(known@ =~= spec_v2_fields());
    known
}

/// Hold a meta version against the smallest that is one.
pub fn check_version(version: u8) -> (r: Result<u8, ParseTorrentError>)
    ensures
        r == spec_check_version(version),
{
    if version >= 2 {
        Ok(version)
    } else {
        Err(ParseTorrentError::InvalidVersion(version as i64))
    }
}

impl MetaV2 {
    /// Read a dictionary as the info dictionary of a version 2 torrent.
    pub fn deserialize(dict: &Vec<(Vec<u8>, Value)>, options: DecodeOptions) -> (r: Result<
        Self,
        ParseTorrentError,
    >)
        ensures
            match spec_decode_v2(spec_pair_views(dict@), options) {
                Ok(model) => r matches Ok(info) && info.model() == model,
                Err(e) => r matches Err(f) && f == e,
            },
    {
        let file_tree = match opt_tree(dict, options) {
            Err(e) => {
                return Err(e);
            },
            Ok(None) => {
                return Err(ParseTorrentError::MissingField(Field::FileTree));
            },
            Ok(Some(tree)) => tree,
        };
        let name = match name(dict) {
            Err(e) => {
                return Err(e);
            },
            Ok(name) => name,
        };
        let meta_version = match opt_version(dict) {
            Err(e) => {
                return Err(e);
            },
            Ok(None) => {
                return Err(ParseTorrentError::MissingField(Field::MetaVersion));
            },
            Ok(Some(version)) => match check_version(version) {
                Err(e) => {
                    return Err(e);
                },
                Ok(v) => v,
            },
        };
        let piece_length = match req_piece_length(dict) {
            Err(e) => {
                return Err(e);
            },
            Ok(n) => n,
        };
        let private = match private_flag(dict) {
            Err(e) => {
                return Err(e);
            },
            Ok(p) => p,
        };
        let root_hash = match opt_digest::<20>(dict, Field::RootHash) {
            Err(e) => {
                return Err(e);
            },
            Ok(None) => {
                return Err(ParseTorrentError::MissingField(Field::RootHash));
            },
            Ok(Some(d)) => d,
        };
        let known = v2_fields();
        match check_keys(dict, &known, Field::Info, true) {
            Err(e) => Err(e),
            Ok(_) => Ok(MetaV2 { file_tree, name, meta_version, piece_length, private, root_hash }),
        }
    }
}

} // verus!
