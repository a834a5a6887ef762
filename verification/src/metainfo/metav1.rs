//! The info dictionary of a version 1 torrent.

use crate::bencode::value::spec_pair_views;
use crate::bencode::value::Value;
use crate::bencode::value::ValueView;
use crate::crypto::digest::Md5;
use crate::dictionary::check_keys;
use crate::dictionary::name;
use crate::dictionary::opt_digest;
use crate::dictionary::opt_files;
use crate::dictionary::opt_length;
use crate::dictionary::opt_pieces;
use crate::dictionary::req_piece_length;
use crate::dictionary::spec_check_keys;
use crate::dictionary::spec_name;
use crate::dictionary::spec_opt_digest;
use crate::dictionary::spec_opt_files;
use crate::dictionary::spec_opt_length;
use crate::dictionary::spec_opt_pieces;
use crate::dictionary::spec_req_piece_length;
use crate::error::AmbiguousFiles;
use crate::error::Field;
use crate::error::ParseTorrentError;
use crate::files::flatfile::FilesModel;
use crate::files::flatfile::MetaV1FileRepr;
use crate::metainfo::boolint::private_flag;
use crate::metainfo::boolint::spec_private;
use crate::pieces::PieceLength;
use crate::pieces::Pieces;
use vstd::prelude::*;

verus! {

/// The info dictionary of a version 1 torrent.
#[derive(Debug)]
pub struct MetaV1 {
    pub files: MetaV1FileRepr,
    pub md5sum: Option<Md5>,
    pub name: String,
    pub pieces: Pieces,
    pub piece_length: PieceLength,
    /// The flag `private` as it stands on the wire: not there, 0 or 1.
    pub private: Option<bool>,
}

/// The info dictionary of a version 1 torrent as contracts see it.
pub struct MetaV1Model {
    pub files: FilesModel,
    pub md5sum: Option<Seq<u8>>,
    pub name: Seq<char>,
    pub pieces: Seq<u8>,
    pub piece_length: u64,
    pub private: Option<bool>,
}

impl MetaV1 {
    /// What contracts see of the dictionary.
    pub open spec fn model(&self) -> MetaV1Model {
        MetaV1Model {
            files: self.files.model(),
            md5sum: match self.md5sum {
                Some(d) => Some(d@),
                None => None,
            },
            name: self.name@,
            pieces: self.pieces@,
            piece_length: self.piece_length@,
            private: self.private,
        }
    }
}

/// The fields that the info dictionary of a version 1 torrent knows.
pub open spec fn spec_v1_fields() -> Seq<Field> {
    seq![
        Field::Files,
        Field::Length,
        Field::Md5sum,
        Field::Name,
        Field::Pieces,
        Field::PieceLength,
        Field::Private,
    ]
}

/// The files that a version 1 info dictionary names: exactly one of `length`
/// and `files` must be there.
pub open spec fn spec_v1_files(dict: Seq<(Seq<u8>, ValueView)>, strict: bool) -> Result<
    FilesModel,
    ParseTorrentError,
> {
    match spec_opt_length(dict) {
        Err(e) => Err(e),
        Ok(length) => match spec_opt_files(dict, strict) {
            Err(e) => Err(e),
            Ok(files) => match (length, files) {
                (Some(_), Some(_)) => Err(
                    ParseTorrentError::AmbiguousFiles(AmbiguousFiles::LengthAndFiles),
                ),
                (None, None) => Err(ParseTorrentError::AmbiguousFiles(AmbiguousFiles::NoFiles)),
                (Some(n), None) => Ok(FilesModel::Single(n)),
                (None, Some(list)) => Ok(FilesModel::Multiple(list)),
            },
        },
    }
}

/// What a dictionary is as the info dictionary of a version 1 torrent. The
/// fields are read in the order `length`, `files`, `md5sum`, `name`,
/// `pieces`, `piece length`, `private`, and the first that is wrong is
/// reported; `name`, `pieces` and `piece length` must be there. A key that
/// is none of these is refused, however the torrent is read: it shows that
/// the dictionary is of another version.
pub open spec fn spec_decode_v1(dict: Seq<(Seq<u8>, ValueView)>, strict: bool) -> Result<
    MetaV1Model,
    ParseTorrentError,
> {
    match spec_v1_files(dict, strict) {
        Err(e) => Err(e),
        Ok(files) => match spec_opt_digest(dict, Field::Md5sum, 16) {
            Err(e) => Err(e),
            Ok(md5sum) => match spec_name(dict) {
                Err(e) => Err(e),
                Ok(name) => match spec_opt_pieces(dict) {
                    Err(e) => Err(e),
                    Ok(None) => Err(ParseTorrentError::MissingField(Field::Pieces)),
                    Ok(Some(pieces)) => match spec_req_piece_length(dict) {
                        Err(e) => Err(e),
                        Ok(piece_length) => match spec_private(dict) {
                            Err(e) => Err(e),
                            Ok(private) => match spec_check_keys(
                                dict,
                                spec_v1_fields(),
                                Field::Info,
                                true,
                            ) {
                                Some(e) => Err(e),
                                None => Ok(
                                    MetaV1Model {
                                        files,
                                        md5sum,
                                        name,
                                        pieces,
                                        piece_length,
                                        private,
                                    },
                                ),
                            },
                        },
                    },
                },
            },
        },
    }
}

/// The fields that the info dictionary of a version 1 torrent knows.
pub fn v1_fields() -> (r: Vec<Field>)
    ensures
        r@ == spec_v1_fields(),
{
    let mut known: Vec<Field> = Vec::new();
    known.push(Field::Files);
    known.push(Field::Length);
    known.push(Field::Md5sum);
    known.push(Field::Name);
    known.push(Field::Pieces);
    known.push(Field::PieceLength);
    known.push(Field::Private);
    assert(known@ =~= spec_v1_fields());
    known
}

impl MetaV1 {
    /// Read a dictionary as the info dictionary of a version 1 torrent.
    pub fn deserialize(dict: &Vec<(Vec<u8>, Value)>, strict: bool) -> (r: Result<
        Self,
        ParseTorrentError,
    >)
        ensures
            match spec_decode_v1(spec_pair_views(dict@), strict) {
                Ok(model) => r matches Ok(info) && info.model() == model,
                Err(e) => r matches Err(f) && f == e,
            },
    {
        let length = match opt_length(dict) {
            Err(e) => {
                return Err(e);
            },
            Ok(length) => length,
        };
        let list = match opt_files(dict, strict) {
            Err(e) => {
                return Err(e);
            },
            Ok(list) => list,
        };
        let files = match (length, list) {
            (Some(_), Some(_)) => {
                return Err(ParseTorrentError::AmbiguousFiles(AmbiguousFiles::LengthAndFiles));
            },
            (None, None) => {
                return Err(ParseTorrentError::AmbiguousFiles(AmbiguousFiles::NoFiles));
            },
            (Some(n), None) => MetaV1FileRepr::Single(n),
            (None, Some(list)) => MetaV1FileRepr::Multiple(list),
        };
        let md5sum = match opt_digest::<16>(dict, Field::Md5sum) {
            Err(e) => {
                return Err(e);
            },
            Ok(d) => d,
        };
        let name = match name(dict) {
            Err(e) => {
                return Err(e);
            },
            Ok(name) => name,
        };
        let pieces = match opt_pieces(dict) {
            Err(e) => {
                return Err(e);
            },
            Ok(None) => {
                return Err(ParseTorrentError::MissingField(Field::Pieces));
            },
            Ok(Some(pieces)) => pieces,
        };
        let piece_length = match req_piece_length(dict) {
            Err(e) => {
                return Err(e);
            },
            Ok(n) => n,
        };
        let private = match private_flag(dict) {
            Err(e) => {
                return Err(e);
            },
            Ok(p) => p,
        };
        let known = v1_fields();
        match check_keys(dict, &known, Field::Info, true) {
            Err(e) => Err(e),
            Ok(_) => Ok(MetaV1 { files, md5sum, name, pieces, piece_length, private }),
        }
    }
}

} // verus!
