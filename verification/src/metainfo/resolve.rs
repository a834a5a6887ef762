//! Which version an info dictionary is of.
//!
//! The wire says of no dictionary which version it is: the fields that are
//! there decide. A dictionary is held against version 1, then version 2,
//! then the model of both, and is what it first matches. Where it matches
//! none, the reason that is reported is the most telling that can be found:
//! a file tree that is there and broken, else a field that contradicts the
//! others, else only that nothing matched.

use crate::bencode::value::spec_get;
use crate::bencode::value::spec_pair_views;
use crate::bencode::value::Value;
use crate::bencode::value::ValueView;
use crate::dictionary::find;
use crate::dictionary::opt_pieces;
use crate::dictionary::opt_tree;
use crate::dictionary::opt_version;
use crate::dictionary::req_piece_length;
use crate::dictionary::spec_opt_pieces;
use crate::dictionary::spec_opt_tree;
use crate::dictionary::spec_opt_version;
use crate::dictionary::spec_req_piece_length;
use crate::dictionary::DecodeOptions;
use crate::error::spec_key;
use crate::error::Field;
use crate::error::ParseTorrentError;
use crate::files::filedisplayinfo::display_flats;
use crate::files::filedisplayinfo::spec_display_flats;
use crate::files::filedisplayinfo::spec_display_models;
use crate::files::filedisplayinfo::spec_display_single;
use crate::files::filedisplayinfo::spec_display_views;
use crate::files::filedisplayinfo::DisplayModel;
use crate::files::filedisplayinfo::FileDisplayInfo;
use crate::files::filedisplayinfo::FileDisplayInfoIter;
use crate::files::flatfile::MetaV1FileRepr;
use crate::metainfo::hybrid::spec_decode_hybrid;
use crate::metainfo::hybrid::spec_validate;
use crate::metainfo::hybrid::validate;
use crate::metainfo::hybrid::Hybrid;
use crate::metainfo::hybrid::HybridModel;
use crate::metainfo::metav1::spec_decode_v1;
use crate::metainfo::metav1::MetaV1;
use crate::metainfo::metav1::MetaV1Model;
use crate::metainfo::metav2::spec_decode_v2;
use crate::metainfo::metav2::MetaV2;
use crate::metainfo::metav2::MetaV2Model;
use crate::pieces::PieceLength;
use vstd::prelude::*;

verus! {

/// The info dictionary of a torrent.
#[derive(Debug)]
pub enum MetaInfo {
    MetaV1(MetaV1),
    MetaV2(MetaV2),
    Hybrid(Hybrid),
}

/// A shorter name for the info dictionary of a torrent.
pub type Info = MetaInfo;

/// The info dictionary of a torrent as contracts see it.
pub enum MetaInfoModel {
    MetaV1(MetaV1Model),
    MetaV2(MetaV2Model),
    Hybrid(HybridModel),
}

/// What is wrong with the structure of an info dictionary, if anything: a
/// piece length that is no power of two or too small, digests of pieces
/// whose bytes are no multiple of 20, a meta version that is none, or files
/// named in no way or in more than one.
pub open spec fn spec_structure(dict: Seq<(Seq<u8>, ValueView)>) -> Option<ParseTorrentError> {
    match spec_req_piece_length(dict) {
        Err(ParseTorrentError::PieceLength(n)) => Some(ParseTorrentError::PieceLength(n)),
        _ => match spec_opt_pieces(dict) {
            Err(ParseTorrentError::InvalidLength { field, actual }) => Some(
                ParseTorrentError::InvalidLength { field, actual },
            ),
            _ => match spec_opt_version(dict) {
                Err(ParseTorrentError::InvalidVersion(n)) => Some(
                    ParseTorrentError::InvalidVersion(n),
                ),
                Err(_) => None,
                Ok(version) => spec_validate(
                    version,
                    spec_get(dict, spec_key(Field::Length)) is Some,
                    spec_get(dict, spec_key(Field::Files)) is Some,
                    spec_get(dict, spec_key(Field::FileTree)) is Some,
                ),
            },
        },
    }
}

/// The reason that is reported for a dictionary that is the info dictionary
/// of no version.
pub open spec fn spec_unresolved(dict: Seq<(Seq<u8>, ValueView)>, options: DecodeOptions) -> ParseTorrentError {
    match spec_opt_tree(dict, options) {
        Err(e) => e,
        Ok(_) => match spec_structure(dict) {
            Some(e) => e,
            None => ParseTorrentError::NoVariant,
        },
    }
}

/// What a dictionary is as an info dictionary: what it first matches of
/// version 1, version 2 and the model of both.
pub open spec fn spec_resolve(dict: Seq<(Seq<u8>, ValueView)>, options: DecodeOptions) -> Result<
    MetaInfoModel,
    ParseTorrentError,
> {
    match spec_decode_v1(dict, options.strict) {
        Ok(model) => Ok(MetaInfoModel::MetaV1(model)),
        Err(_) => match spec_decode_v2(dict, options) {
            Ok(model) => Ok(MetaInfoModel::MetaV2(model)),
            Err(_) => match spec_decode_hybrid(dict, options) {
                Ok(model) => Ok(MetaInfoModel::Hybrid(model)),
                Err(_) => Err(spec_unresolved(dict, options)),
            },
        },
    }
}

/// What is wrong with the structure of an info dictionary, if anything.
pub fn structure(dict: &Vec<(Vec<u8>, Value)>) -> (r: Result<(), ParseTorrentError>)
    ensures
        match spec_structure(spec_pair_views(dict@)) {
            Some(e) => r matches Err(f) && f == e,
            None => r is Ok,
        },
{
    match req_piece_length(dict) {
        Err(ParseTorrentError::PieceLength(n)) => {
            return Err(ParseTorrentError::PieceLength(n));
        },
        _ => {},
    }
    match opt_pieces(dict) {
        Err(ParseTorrentError::InvalidLength { field, actual }) => {
            return Err(ParseTorrentError::InvalidLength { field, actual });
        },
        _ => {},
    }
    match opt_version(dict) {
        Err(ParseTorrentError::InvalidVersion(n)) => Err(ParseTorrentError::InvalidVersion(n)),
        Err(_) => Ok(()),
        Ok(version) => validate(
            version,
            find(dict, Field::Length).is_some(),
            find(dict, Field::Files).is_some(),
            find(dict, Field::FileTree).is_some(),
        ),
    }
}

/// The reason that is reported for a dictionary that is the info dictionary
/// of no version.
pub fn unresolved(dict: &Vec<(Vec<u8>, Value)>, options: DecodeOptions) -> (r: ParseTorrentError)
    ensures
        r == spec_unresolved(spec_pair_views(dict@), options),
{
    match opt_tree(dict, options) {
        Err(e) => e,
        Ok(_) => match structure(dict) {
            Err(e) => e,
            Ok(_) => ParseTorrentError::NoVariant,
        },
    }
}

impl MetaInfo {
    /// What contracts see of the dictionary.
    pub open spec fn model(&self) -> MetaInfoModel {
        match self {
            MetaInfo::MetaV1(info) => MetaInfoModel::MetaV1(info.model()),
            MetaInfo::MetaV2(info) => MetaInfoModel::MetaV2(info.model()),
            MetaInfo::Hybrid(info) => MetaInfoModel::Hybrid(info.model()),
        }
    }

    /// Read a dictionary as an info dictionary.
    pub fn deserialize(dict: &Vec<(Vec<u8>, Value)>, options: DecodeOptions) -> (r: Result<
        Self,
        ParseTorrentError,
    >)
        ensures
            match spec_resolve(spec_pair_views(dict@), options) {
                Ok(model) => r matches Ok(info) && info.model() == model,
                Err(e) => r matches Err(f) && f == e,
            },
    {
        match MetaV1::deserialize(dict, options.strict) {
            Ok(info) => {
                return Ok(MetaInfo::MetaV1(info));
            },
            Err(_) => {},
        }
        match MetaV2::deserialize(dict, options) {
            Ok(info) => {
                return Ok(MetaInfo::MetaV2(info));
            },
            Err(_) => {},
        }
        match Hybrid::deserialize(dict, options) {
            Ok(info) => Ok(MetaInfo::Hybrid(info)),
            Err(_) => Err(unresolved(dict, options)),
        }
    }

    /// The name of the torrent.
    pub fn name(&self) -> (r: &str)
        ensures
            r@ == spec_info_name(self.model()),
    {
        match self {
            MetaInfo::MetaV1(info) => info.name.as_str(),
            MetaInfo::MetaV2(info) => info.name.as_str(),
            MetaInfo::Hybrid(info) => info.name.as_str(),
        }
    }

    /// The version of the dictionary, as text: `1`, `2` or `hybrid`.
    pub fn meta_version_str(&self) -> (r: &'static str)
        ensures
            r@ == match self {
                MetaInfo::MetaV1(_) => "1"@,
                MetaInfo::MetaV2(_) => "2"@,
                MetaInfo::Hybrid(_) => "hybrid"@,
            },
    {
        match self {
            MetaInfo::MetaV1(_) => "1",
            MetaInfo::MetaV2(_) => "2",
            MetaInfo::Hybrid(_) => "hybrid",
        }
    }

    /// The length of a piece.
    pub fn piece_length(&self) -> (r: PieceLength)
        ensures
            r@ == spec_info_piece_length(self.model()),
    {
        match self {
            MetaInfo::MetaV1(info) => info.piece_length,
            MetaInfo::MetaV2(info) => info.piece_length,
            MetaInfo::Hybrid(info) => info.piece_length,
        }
    }

    /// The files of the torrent, as contracts see them: those of the list or
    /// the one file of a version 1 torrent, those of the tree of a version 2
    /// torrent in the order of its walk. A torrent of both versions shows
    /// its tree where it has one, else its list, else its one file, else
    /// nothing.
    pub open spec fn spec_files(&self) -> Seq<DisplayModel> {
        match self {
            MetaInfo::MetaV1(info) => match info.files {
                MetaV1FileRepr::Single(length) => seq![spec_display_single(info.name@, length@)],
                MetaV1FileRepr::Multiple(files) => spec_display_flats(files@),
            },
            MetaInfo::MetaV2(info) => spec_display_views(info.file_tree.spec_files()),
            MetaInfo::Hybrid(info) => match info.file_tree {
                Some(tree) => spec_display_views(tree.spec_files()),
                None => match info.files {
                    Some(files) => spec_display_flats(files@),
                    None => match info.length {
                        Some(length) => seq![spec_display_single(info.name@, length@)],
                        None => Seq::empty(),
                    },
                },
            },
        }
    }

    /// A walk over the files of the torrent.
    pub fn iter_files(&self) -> (r: FileDisplayInfoIter<'_>)
        ensures
            r.remaining() == self.spec_files(),
    {
        let files = match self {
            MetaInfo::MetaV1(info) => info.as_file_display(),
            MetaInfo::MetaV2(info) => info.file_tree.as_file_display(),
            MetaInfo::Hybrid(info) => match &info.file_tree {
                Some(tree) => tree.as_file_display(),
                None => match &info.files {
                    Some(files) => display_flats(files),
                    None => match info.length {
                        Some(length) => display_single(info.name.as_str(), length),
                        None => {
                            let empty: Vec<FileDisplayInfo<'_>> = Vec::new();
                            assert(spec_display_models(empty@) =~= Seq::<DisplayModel>::empty());
                            empty
                        },
                    },
                },
            },
        };
        FileDisplayInfoIter::new(files)
    }
}

/// The one file of a torrent that names one file only.
pub fn display_single<'file>(name: &'file str, length: crate::files::filetree::FileLength) -> (r:
    Vec<FileDisplayInfo<'file>>)
    ensures
        spec_display_models(r@) == seq![spec_display_single(name@, length@)],
{
    let mut out: Vec<FileDisplayInfo<'file>> = Vec::new();
    let file_path: Vec<&'file str> = Vec::new();
    out.push(FileDisplayInfo { file_path, name, length });
    assert(crate::files::depthfirst::spec_path(out@[0].file_path@) =~= Seq::<Seq<char>>::empty());
    assert(spec_display_models(out@) =~= seq![spec_display_single(name@, length@)]);
    out
}

impl MetaV1 {
    /// The files of the torrent: the one file, named as the torrent, or the
    /// files of the list.
    pub fn as_file_display(&self) -> (r: Vec<FileDisplayInfo<'_>>)
        ensures
            spec_display_models(r@) == match self.files {
                MetaV1FileRepr::Single(length) => seq![spec_display_single(self.name@, length@)],
                MetaV1FileRepr::Multiple(files) => spec_display_flats(files@),
            },
    {
        match &self.files {
            MetaV1FileRepr::Single(length) => display_single(self.name.as_str(), *length),
            MetaV1FileRepr::Multiple(files) => display_flats(files),
        }
    }
}

/// The name that an info dictionary gives the torrent.
pub open spec fn spec_info_name(model: MetaInfoModel) -> Seq<char> {
    match model {
        MetaInfoModel::MetaV1(info) => info.name,
        MetaInfoModel::MetaV2(info) => info.name,
        MetaInfoModel::Hybrid(info) => info.name,
    }
}

/// The piece length of an info dictionary.
pub open spec fn spec_info_piece_length(model: MetaInfoModel) -> u64 {
    match model {
        MetaInfoModel::MetaV1(info) => info.piece_length,
        MetaInfoModel::MetaV2(info) => info.piece_length,
        MetaInfoModel::Hybrid(info) => info.piece_length,
    }
}

} // verus!
