//! The files of a version 1 torrent.
//!
//! A torrent of one file names no path: the name of the torrent is the name
//! of the file, and `length` is its size. A torrent of several files lists
//! them, each with its whole path; the last part of a path is the name of
//! the file.

use crate::bencode::value::spec_pair_views;
use crate::bencode::value::spec_views;
use crate::bencode::value::Value;
use crate::bencode::value::ValueView;
use crate::crypto::digest::Md5;
use crate::crypto::digest::Sha1;
use crate::dictionary::check_keys;
use crate::dictionary::opt_attr;
use crate::dictionary::opt_digest;
use crate::dictionary::opt_length;
use crate::dictionary::opt_texts;
use crate::dictionary::spec_check_keys;
use crate::dictionary::spec_opt_attr;
use crate::dictionary::spec_opt_digest;
use crate::dictionary::spec_opt_length;
use crate::dictionary::spec_opt_texts;
use crate::dictionary::spec_strings;
use crate::error::Field;
use crate::error::ParseTorrentError;
use crate::error::ValueKind;
use crate::files::fileattributes::TorrentFileAttributes;
use crate::files::filetree::FileLength;
use vstd::prelude::*;

verus! {

/// One file of a version 1 torrent.
#[derive(Debug)]
pub struct FlatFile {
    pub attr: Option<TorrentFileAttributes>,
    pub length: FileLength,
    /// The parts of the path, the name of the file last. Never empty.
    pub path: Vec<String>,
    pub md5sum: Option<Md5>,
    pub sha1: Option<Sha1>,
    pub symlink_path: Option<Vec<String>>,
}

/// Another name for one file of a version 1 torrent.
pub type FlatFiles = FlatFile;

/// Another name for one file of a version 1 torrent.
pub type SharedFiles = FlatFile;

/// The files of a version 1 torrent.
#[derive(Debug)]
pub enum MetaV1FileRepr {
    /// Several files, each with its path.
    Multiple(Vec<FlatFile>),
    /// One file of this length, named as the torrent.
    Single(FileLength),
}

/// One file of a version 1 torrent as contracts see it.
pub struct FlatFileModel {
    pub attr: Option<Seq<u8>>,
    pub length: u64,
    pub path: Seq<Seq<char>>,
    pub md5sum: Option<Seq<u8>>,
    pub sha1: Option<Seq<u8>>,
    pub symlink_path: Option<Seq<Seq<char>>>,
}

/// The files of a version 1 torrent as contracts see them.
pub enum FilesModel {
    Multiple(Seq<FlatFileModel>),
    Single(u64),
}

impl FlatFile {
    /// What contracts see of the file.
    pub open spec fn model(&self) -> FlatFileModel {
        FlatFileModel {
            attr: match self.attr {
                Some(a) => Some(a.spec_letters()),
                None => None,
            },
            length: self.length@,
            path: spec_strings(self.path@),
            md5sum: match self.md5sum {
                Some(d) => Some(d@),
                None => None,
            },
            sha1: match self.sha1 {
                Some(d) => Some(d@),
                None => None,
            },
            symlink_path: match self.symlink_path {
                Some(p) => Some(spec_strings(p@)),
                None => None,
            },
        }
    }
}

/// What contracts see of a list of files.
pub open spec fn spec_file_models(files: Seq<FlatFile>) -> Seq<FlatFileModel> {
    Seq::new(files.len(), |i: int| files[i].model())
}

impl MetaV1FileRepr {
    /// What contracts see of the files.
    pub open spec fn model(&self) -> FilesModel {
        match self {
            MetaV1FileRepr::Multiple(files) => FilesModel::Multiple(spec_file_models(files@)),
            MetaV1FileRepr::Single(length) => FilesModel::Single(length@),
        }
    }
}

/// The fields that the dictionary of a file of a version 1 torrent knows.
pub open spec fn spec_flat_fields() -> Seq<Field> {
    seq![Field::Attr, Field::Length, Field::Path, Field::Md5sum, Field::Sha1, Field::SymlinkPath]
}

/// What a dictionary says of a file of a version 1 torrent. The fields are
/// read in the order `attr`, `length`, `path`, `md5sum`, `sha1`,
/// `symlink path`, and the first that is wrong is reported; `length` and
/// `path` must be there, and a path has at least one part. A strict reading
/// then refuses a key that is none of these.
pub open spec fn spec_decode_flat(dict: Seq<(Seq<u8>, ValueView)>, strict: bool) -> Result<
    FlatFileModel,
    ParseTorrentError,
> {
    match spec_opt_attr(dict) {
        Err(e) => Err(e),
        Ok(attr) => match spec_opt_length(dict) {
            Err(e) => Err(e),
            Ok(None) => Err(ParseTorrentError::MissingField(Field::Length)),
            Ok(Some(length)) => match spec_opt_texts(dict, Field::Path) {
                Err(e) => Err(e),
                Ok(None) => Err(ParseTorrentError::MissingField(Field::Path)),
                Ok(Some(path)) => if path.len() == 0 {
                    Err(ParseTorrentError::InvalidLength { field: Field::Path, actual: 0 })
                } else {
                    match spec_opt_digest(dict, Field::Md5sum, 16) {
                        Err(e) => Err(e),
                        Ok(md5sum) => match spec_opt_digest(dict, Field::Sha1, 20) {
                            Err(e) => Err(e),
                            Ok(sha1) => match spec_opt_texts(dict, Field::SymlinkPath) {
                                Err(e) => Err(e),
                                Ok(symlink_path) => match spec_check_keys(
                                    dict,
                                    spec_flat_fields(),
                                    Field::Files,
                                    strict,
                                ) {
                                    Some(e) => Err(e),
                                    None => Ok(
                                        FlatFileModel {
                                            attr,
                                            length,
                                            path,
                                            md5sum,
                                            sha1,
                                            symlink_path,
                                        },
                                    ),
                                },
                            },
                        },
                    }
                },
            },
        },
    }
}

/// What the values of a list say of the files of a version 1 torrent, from
/// the place `from` on: each must be a dictionary that says of one file.
pub open spec fn spec_decode_flats(items: Seq<ValueView>, from: int, strict: bool) -> Result<
    Seq<FlatFileModel>,
    ParseTorrentError,
>
    decreases items.len() - from,
{
    if from < 0 || from >= items.len() {
        Ok(Seq::empty())
    } else {
        match items[from] {
            ValueView::Dict(dict) => match spec_decode_flat(dict, strict) {
                Err(e) => Err(e),
                Ok(first) => match spec_decode_flats(items, from + 1, strict) {
                    Err(e) => Err(e),
                    Ok(more) => Ok(seq![first] + more),
                },
            },
            _ => Err(
                ParseTorrentError::InvalidType { field: Field::Files, expected: ValueKind::Dict },
            ),
        }
    }
}

/// What is read with `front` put before it.
pub open spec fn spec_flats_after(
    front: Seq<FlatFileModel>,
    r: Result<Seq<FlatFileModel>, ParseTorrentError>,
) -> Result<Seq<FlatFileModel>, ParseTorrentError> {
    match r {
        Ok(more) => Ok(front + more),
        Err(e) => Err(e),
    }
}

/// The fields that the dictionary of a file of a version 1 torrent knows.
pub fn flat_fields() -> (r: Vec<Field>)
    ensures
        r@ == spec_flat_fields(),
{
    let mut known: Vec<Field> = Vec::new();
    known.push(Field::Attr);
    known.push(Field::Length);
    known.push(Field::Path);
    known.push(Field::Md5sum);
    known.push(Field::Sha1);
    known.push(Field::SymlinkPath);
    assert(known@ =~= spec_flat_fields());
    known
}

impl FlatFile {
    /// Read what a dictionary says of a file.
    pub fn deserialize(dict: &Vec<(Vec<u8>, Value)>, strict: bool) -> (r: Result<
        Self,
        ParseTorrentError,
    >)
        ensures
            match spec_decode_flat(spec_pair_views(dict@), strict) {
                Ok(model) => r matches Ok(file) && file.model() == model,
                Err(e) => r matches Err(f) && f == e,
            },
    {
        let attr = match opt_attr(dict) {
            Err(e) => {
                return Err(e);
            },
            Ok(attr) => attr,
        };
        let length = match opt_length(dict) {
            Err(e) => {
                return Err(e);
            },
            Ok(None) => {
                return Err(ParseTorrentError::MissingField(Field::Length));
            },
            Ok(Some(length)) => length,
        };
        let path = match opt_texts(dict, Field::Path) {
            Err(e) => {
                return Err(e);
            },
            Ok(None) => {
                return Err(ParseTorrentError::MissingField(Field::Path));
            },
            Ok(Some(path)) => path,
        };
        if path.len() == 0 {
            return Err(ParseTorrentError::InvalidLength { field: Field::Path, actual: 0 });
        }
        let md5sum = match opt_digest::<16>(dict, Field::Md5sum) {
            Err(e) => {
                return Err(e);
            },
            Ok(d) => d,
        };
        let sha1 = match opt_digest::<20>(dict, Field::Sha1) {
            Err(e) => {
                return Err(e);
            },
            Ok(d) => d,
        };
        let symlink_path = match opt_texts(dict, Field::SymlinkPath) {
            Err(e) => {
                return Err(e);
            },
            Ok(p) => p,
        };
        let known = flat_fields();
        match check_keys(dict, &known, Field::Files, strict) {
            Err(e) => Err(e),
            Ok(_) => Ok(FlatFile { attr, length, path, md5sum, sha1, symlink_path }),
        }
    }

    /// Read what the values of a list say of the files of a torrent.
    pub fn deserialize_all(items: &Vec<Value>, strict: bool) -> (r: Result<
        Vec<FlatFile>,
        ParseTorrentError,
    >)
        ensures
            match spec_decode_flats(spec_views(items@), 0, strict) {
                Ok(models) => r matches Ok(files) && spec_file_models(files@) == models,
                Err(e) => r matches Err(f) && f == e,
            },
    {
        let ghost views = spec_views(items@);
        let mut out: Vec<FlatFile> = Vec::new();
        let mut i: usize = 0;
        proof {
            match spec_decode_flats(views, 0, strict) {
                Ok(t) => {
                    assert(spec_file_models(out@) + t =~= t);
                },
                Err(_) => {},
            }
        }
        while i < items.len()
            invariant
                i <= items@.len(),
                views == spec_views(items@),
                spec_decode_flats(views, 0, strict) == spec_flats_after(
                    spec_file_models(out@),
                    spec_decode_flats(views, i as int, strict),
                ),
            decreases items@.len() - i,
        {
            assert(views[i as int] == items@[i as int]@);
            let dict = match items[i].as_dict() {
                Some(d) => d,
                None => {
                    return Err(
                        ParseTorrentError::InvalidType {
                            field: Field::Files,
                            expected: ValueKind::Dict,
                        },
                    );
                },
            };
            let one = match FlatFile::deserialize(dict, strict) {
                Ok(f) => f,
                Err(e) => {
                    return Err(e);
                },
            };
            proof {
                let before = spec_file_models(out@);
                assert(spec_file_models(out@.push(one)) =~= before + seq![one.model()]);
                match spec_decode_flats(views, i + 1, strict) {
                    Ok(more) => {
                        assert((before + seq![one.model()]) + more =~= before + (seq![one.model()]
                            + more));
                    },
                    Err(_) => {},
                }
            }
            out.push(one);
            i += 1;
        }
        proof {
            assert(spec_file_models(out@) + Seq::<FlatFileModel>::empty() =~= spec_file_models(
                out@,
            ));
        }
        Ok(out)
    }
}

} // verus!
