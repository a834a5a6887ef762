//! The info dictionary of a torrent that may hold the files of both
//! versions, and the checks that hold its fields against each other.

use crate::bencode::value::spec_pair_views;
use crate::bencode::value::Value;
use crate::bencode::value::ValueView;
use crate::crypto::digest::Md5;
use crate::crypto::digest::Sha1;
use crate::dictionary::check_keys;
use crate::dictionary::name;
use crate::dictionary::opt_digest;
use crate::dictionary::opt_files;
use crate::dictionary::opt_length;
use crate::dictionary::opt_pieces;
use crate::dictionary::opt_tree;
use crate::dictionary::opt_version;
use crate::dictionary::req_piece_length;
use crate::dictionary::spec_check_keys;
use crate::dictionary::spec_name;
use crate::dictionary::spec_opt_digest;
use crate::dictionary::spec_opt_files;
use crate::dictionary::spec_opt_length;
use crate::dictionary::spec_opt_pieces;
use crate::dictionary::spec_opt_tree;
use crate::dictionary::spec_opt_version;
use crate::dictionary::spec_req_piece_length;
use crate::dictionary::DecodeOptions;
use crate::error::AmbiguousFiles;
use crate::error::Field;
use crate::error::ParseTorrentError;
use crate::files::filetree::EntryModel;
use crate::files::filetree::FileLength;
use crate::files::filetree::FileTree;
use crate::files::flatfile::FlatFile;
use crate::files::flatfile::FlatFileModel;
use crate::files::flatfile::spec_file_models;
use crate::metainfo::boolint::private_flag;
use crate::metainfo::boolint::spec_private;
use crate::pieces::PieceLength;
use crate::pieces::Pieces;
use vstd::prelude::*;

verus! {

/// The info dictionary of a torrent of both versions.
#[derive(Debug)]
pub struct Hybrid {
    pub files: Option<Vec<FlatFile>>,
    pub file_tree: Option<FileTree>,
    pub length: Option<FileLength>,
    pub meta_version: Option<u8>,
    pub md5sum: Option<Md5>,
    pub name: String,
    pub pieces: Option<Pieces>,
    pub piece_length: PieceLength,
    /// The flag `private` as it stands on the wire: not there, 0 or 1.
    pub private: Option<bool>,
    pub root_hash: Option<Sha1>,
}

/// The info dictionary of a torrent of both versions as contracts see it.
pub struct HybridModel {
    pub files: Option<Seq<FlatFileModel>>,
    pub file_tree: Option<Seq<(Seq<char>, EntryModel)>>,
    pub length: Option<u64>,
    pub meta_version: Option<u8>,
    pub md5sum: Option<Seq<u8>>,
    pub name: Seq<char>,
    pub pieces: Option<Seq<u8>>,
    pub piece_length: u64,
    pub private: Option<bool>,
    pub root_hash: Option<Seq<u8>>,
}

impl Hybrid {
    /// What contracts see of the dictionary.
    pub open spec fn model(&self) -> HybridModel {
        HybridModel {
            files: match self.files {
                Some(f) => Some(spec_file_models(f@)),
                None => None,
            },
            file_tree: match self.file_tree {
                Some(t) => Some(t.model()),
                None => None,
            },
            length: match self.length {
                Some(n) => Some(n@),
                None => None,
            },
            meta_version: self.meta_version,
            md5sum: match self.md5sum {
                Some(d) => Some(d@),
                None => None,
            },
            name: self.name@,
            pieces: match self.pieces {
                Some(p) => Some(p@),
                None => None,
            },
            piece_length: self.piece_length@,
            private: self.private,
            root_hash: match self.root_hash {
                Some(d) => Some(d@),
                None => None,
            },
        }
    }
}

/// The fields that the info dictionary of a torrent of both versions knows.
pub open spec fn spec_hybrid_fields() -> Seq<Field> {
    seq![
        Field::Files,
        Field::FileTree,
        Field::Length,
        Field::MetaVersion,
        Field::Md5sum,
        Field::Name,
        Field::Pieces,
        Field::PieceLength,
        Field::Private,
        Field::RootHash,
    ]
}

/// What is wrong with the way in which an info dictionary names its files,
/// given its meta version and which of `length`, `files` and `file tree` it
/// holds.
///
/// A meta version must be at least 2. Without a meta version the dictionary
/// is of version 1, and exactly one of the three fields must be there:
/// every other combination is ambiguous, each in its own way. A file tree
/// alone is no version 1: it asks for a meta version.
pub open spec fn spec_validate(version: Option<u8>, length: bool, files: bool, file_tree: bool) -> Option<
    ParseTorrentError,
> {
    match version {
        Some(v) => if v < 2 {
            Some(ParseTorrentError::InvalidVersion(v as i64))
        } else {
            None
        },
        None => if length && files && file_tree {
            Some(ParseTorrentError::AmbiguousFiles(AmbiguousFiles::LengthFilesAndFileTree))
        } else if length && files {
            Some(ParseTorrentError::AmbiguousFiles(AmbiguousFiles::LengthAndFiles))
        } else if length && file_tree {
            Some(ParseTorrentError::AmbiguousFiles(AmbiguousFiles::LengthAndFileTree))
        } else if files && file_tree {
            Some(ParseTorrentError::AmbiguousFiles(AmbiguousFiles::FilesAndFileTree))
        } else if !length && !files && !file_tree {
            Some(ParseTorrentError::AmbiguousFiles(AmbiguousFiles::NoFiles))
        } else if file_tree {
            Some(ParseTorrentError::MissingField(Field::MetaVersion))
        } else {
            None
        },
    }
}

/// Hold the meta version of an info dictionary against the fields that name
/// its files.
pub fn validate(version: Option<u8>, length: bool, files: bool, file_tree: bool) -> (r: Result<
    (),
    ParseTorrentError,
>)
    ensures
        match spec_validate(version, length, files, file_tree) {
            Some(e) => r matches Err(f) && f == e,
            None => r is Ok,
        },
{
    match version {
        Some(v) => {
            if v < 2 {
                Err(ParseTorrentError::InvalidVersion(v as i64))
            } else {
                Ok(())
            }
        },
        None => {
            if length && files && file_tree {
                Err(ParseTorrentError::AmbiguousFiles(AmbiguousFiles::LengthFilesAndFileTree))
            } else if length && files {
                Err(ParseTorrentError::AmbiguousFiles(AmbiguousFiles::LengthAndFiles))
            } else if length && file_tree {
                Err(ParseTorrentError::AmbiguousFiles(AmbiguousFiles::LengthAndFileTree))
            } else if files && file_tree {
                Err(ParseTorrentError::AmbiguousFiles(AmbiguousFiles::FilesAndFileTree))
            } else if !length && !files && !file_tree {
                Err(ParseTorrentError::AmbiguousFiles(AmbiguousFiles::NoFiles))
            } else if file_tree {
                Err(ParseTorrentError::MissingField(Field::MetaVersion))
            } else {
                Ok(())
            }
        },
    }
}

/// Without a meta version, of the eight ways in which `length`, `files` and
/// `file tree` can be there or not, two are accepted: `length` alone and
/// `files` alone.
pub proof fn lemma_validate_version_one(length: bool, files: bool, file_tree: bool)
    ensures
        spec_validate(None, length, files, file_tree) is None <==> ((length && !files
            && !file_tree) || (!length && files && !file_tree)),
{
}

/// Without a meta version, each refused way of naming the files has an
/// error of its own.
pub proof fn lemma_validate_distinct(a: (bool, bool, bool), b: (bool, bool, bool))
    requires
        spec_validate(None, a.0, a.1, a.2) is Some,
        spec_validate(None, b.0, b.1, b.2) is Some,
        a != b,
    ensures
        spec_validate(None, a.0, a.1, a.2) != spec_validate(None, b.0, b.1, b.2),
{
}

/// A meta version decides alone: it is accepted exactly where it is at least
/// 2, whatever fields name the files.
pub proof fn lemma_validate_version(version: u8, length: bool, files: bool, file_tree: bool)
    ensures
        spec_validate(Some(version), length, files, file_tree) is None <==> version >= 2,
        version < 2 ==> spec_validate(Some(version), length, files, file_tree) == Some(
            ParseTorrentError::InvalidVersion(version as i64),
        ),
{
}

/// What a dictionary is as the info dictionary of a torrent of both
/// versions. The fields are read in the order `files`, `file tree`,
/// `length`, `meta version`, `md5sum`, `name`, `pieces`, `piece length`,
/// `private`, `root hash`, and the first that is wrong is reported; `name`
/// and `piece length` must be there. A strict reading then refuses a key
/// that is none of these. At last the meta version is held against the
/// fields that name the files.
pub open spec fn spec_decode_hybrid(dict: Seq<(Seq<u8>, ValueView)>, options: DecodeOptions) -> Result<
    HybridModel,
    ParseTorrentError,
> {
    match spec_opt_files(dict, options.strict) {
        Err(e) => Err(e),
        Ok(files) => match spec_opt_tree(dict, options) {
            Err(e) => Err(e),
            Ok(file_tree) => match spec_opt_length(dict) {
                Err(e) => Err(e),
                Ok(length) => match spec_opt_version(dict) {
                    Err(e) => Err(e),
                    Ok(meta_version) => match spec_opt_digest(dict, Field::Md5sum, 16) {
                        Err(e) => Err(e),
                        Ok(md5sum) => match spec_name(dict) {
                            Err(e) => Err(e),
                            Ok(name) => match spec_opt_pieces(dict) {
                                Err(e) => Err(e),
                                Ok(pieces) => match spec_req_piece_length(dict) {
                                    Err(e) => Err(e),
                                    Ok(piece_length) => match spec_private(dict) {
                                        Err(e) => Err(e),
                                        Ok(private) => match spec_opt_digest(
                                            dict,
                                            Field::RootHash,
                                            20,
                                        ) {
                                            Err(e) => Err(e),
                                            Ok(root_hash) => match spec_check_keys(
                                                dict,
                                                spec_hybrid_fields(),
                                                Field::Info,
                                                options.strict,
                                            ) {
                                                Some(e) => Err(e),
                                                None => match spec_validate(
                                                    meta_version,
                                                    length is Some,
                                                    files is Some,
                                                    file_tree is Some,
                                                ) {
                                                    Some(e) => Err(e),
                                                    None => Ok(
                                                        HybridModel {
                                                            files,
                                                            file_tree,
                                                            length,
                                                            meta_version,
                                                            md5sum,
                                                            name,
                                                            pieces,
                                                            piece_length,
                                                            private,
                                                            root_hash,
                                                        },
                                                    ),
                                                },
                                            },
                                        },
                                    },
                                },
                            },
                        },
                    },
                },
            },
        },
    }
}

/// The fields that the info dictionary of a torrent of both versions knows.
pub fn hybrid_fields() -> (r: Vec<Field>)
    ensures
        r@ == spec_hybrid_fields(),
{
    let mut known: Vec<Field> = Vec::new();
    known.push(Field::Files);
    known.push(Field::FileTree);
    known.push(Field::Length);
    known.push(Field::MetaVersion);
    known.push(Field::Md5sum);
    known.push(Field::Name);
    known.push(Field::Pieces);
    known.push(Field::PieceLength);
    known.push(Field::Private);
    known.push(Field::RootHash);
    assert(known@ =~= spec_hybrid_fields());
    known
}

impl Hybrid {
    /// Read a dictionary as the info dictionary of a torrent of both
    /// versions.
    pub fn deserialize(dict: &Vec<(Vec<u8>, Value)>, options: DecodeOptions) -> (r: Result<
        Self,
        ParseTorrentError,
    >)
        ensures
            match spec_decode_hybrid(spec_pair_views(dict@), options) {
                Ok(model) => r matches Ok(info) && info.model() == model,
                Err(e) => r matches Err(f) && f == e,
            },
    {
        let files = match opt_files(dict, options.strict) {
            Err(e) => {
                return Err(e);
            },
            Ok(f) => f,
        };
        let file_tree = match opt_tree(dict, options) {
            Err(e) => {
                return Err(e);
            },
            Ok(t) => t,
        };
        let length = match opt_length(dict) {
            Err(e) => {
                return Err(e);
            },
            Ok(n) => n,
        };
        let meta_version = match opt_version(dict) {
            Err(e) => {
                return Err(e);
            },
            Ok(v) => v,
        };
        let md5sum = match opt_digest::<16>(dict, Field::Md5sum) {
            Err(e) => {
                return Err(e);
            },
            Ok(d) => d,
        };
        let name = match name(dict) {
            Err(e) => {
                return Err(e);
            },
            Ok(name) => name,
        };
        let pieces = match opt_pieces(dict) {
            Err(e) => {
                return Err(e);
            },
            Ok(p) => p,
        };
        let piece_length = match req_piece_length(dict) {
            Err(e) => {
                return Err(e);
            },
            Ok(n) => n,
        };
        let private = match private_flag(dict) {
            Err(e) => {
                return Err(e);
            },
            Ok(p) => p,
        };
        let root_hash = match opt_digest::<20>(dict, Field::RootHash) {
            Err(e) => {
                return Err(e);
            },
            Ok(d) => d,
        };
        let known = hybrid_fields();
        match check_keys(dict, &known, Field::Info, options.strict) {
            Err(e) => {
                return Err(e);
            },
            Ok(_) => {},
        }
        match validate(meta_version, length.is_some(), files.is_some(), file_tree.is_some()) {
            Err(e) => Err(e),
            Ok(_) => Ok(
                Hybrid {
                    files,
                    file_tree,
                    length,
                    meta_version,
                    md5sum,
                    name,
                    pieces,
                    piece_length,
                    private,
                    root_hash,
                },
            ),
        }
    }
}

} // verus!
