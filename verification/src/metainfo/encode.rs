//! Info dictionaries on the wire.
//!
//! A dictionary is written with its keys in ascending order of their bytes,
//! and a field that is not there is not written. So a dictionary that was
//! read from its canonical form is written as it was read.

use crate::bencode::value::lemma_dict_view;
use crate::bencode::value::lemma_list_view;
use crate::bencode::value::spec_pair_views;
use crate::bencode::value::spec_views;
use crate::bencode::value::Value;
use crate::bencode::value::ValueView;
use crate::dictionary::spec_strings;
use crate::error::spec_key;
use crate::error::Field;
use crate::files::filetree::EntryModel;
use crate::files::flatfile::spec_file_models;
use crate::files::flatfile::FilesModel;
use crate::files::flatfile::FlatFile;
use crate::files::flatfile::FlatFileModel;
use crate::files::flatfile::MetaV1FileRepr;
use crate::files::treecodec::key_bytes;
use crate::files::treecodec::spec_encode_level;
use crate::metainfo::boolint::bool_to_int;
use crate::metainfo::boolint::spec_bool_to_int;
use crate::metainfo::hybrid::Hybrid;
use crate::metainfo::hybrid::HybridModel;
use crate::metainfo::metav1::MetaV1;
use crate::metainfo::metav1::MetaV1Model;
use crate::metainfo::metav2::MetaV2;
use crate::metainfo::metav2::MetaV2Model;
use crate::metainfo::resolve::MetaInfo;
use crate::metainfo::resolve::MetaInfoModel;
use vstd::prelude::*;
use vstd::string::StringSliceAdditionalSpecFns;
use vstd::utf8::encode_utf8;

verus! {

/// One field with its value.
pub open spec fn spec_field(field: Field, value: ValueView) -> Seq<(Seq<u8>, ValueView)> {
    seq![(spec_key(field), value)]
}

/// One field with its value, where the field has one.
pub open spec fn spec_opt_field(field: Field, value: Option<ValueView>) -> Seq<(Seq<u8>, ValueView)> {
    match value {
        Some(v) => spec_field(field, v),
        None => Seq::empty(),
    }
}

/// The value of bytes that need not be there.
pub open spec fn spec_opt_bytes_value(bytes: Option<Seq<u8>>) -> Option<ValueView> {
    match bytes {
        Some(b) => Some(ValueView::Bytes(b)),
        None => None,
    }
}

/// The value of a flag that need not be there.
pub open spec fn spec_opt_flag_value(flag: Option<bool>) -> Option<ValueView> {
    match flag {
        Some(b) => Some(ValueView::Int(spec_bool_to_int(b))),
        None => None,
    }
}

/// The list of the byte strings of texts.
pub open spec fn spec_text_values(texts: Seq<Seq<char>>) -> Seq<ValueView> {
    Seq::new(texts.len(), |i: int| ValueView::Bytes(encode_utf8(texts[i])))
}

/// The value of a list of texts that need not be there.
pub open spec fn spec_opt_texts_value(texts: Option<Seq<Seq<char>>>) -> Option<ValueView> {
    match texts {
        Some(t) => Some(ValueView::List(spec_text_values(t))),
        None => None,
    }
}

/// The dictionary of a file of a version 1 torrent.
pub open spec fn spec_encode_flat(model: FlatFileModel) -> Seq<(Seq<u8>, ValueView)> {
    spec_opt_field(Field::Attr, spec_opt_bytes_value(model.attr)) + spec_field(
        Field::Length,
        ValueView::Int(model.length as i64),
    ) + spec_opt_field(Field::Md5sum, spec_opt_bytes_value(model.md5sum)) + spec_field(
        Field::Path,
        ValueView::List(spec_text_values(model.path)),
    ) + spec_opt_field(Field::Sha1, spec_opt_bytes_value(model.sha1)) + spec_opt_field(
        Field::SymlinkPath,
        spec_opt_texts_value(model.symlink_path),
    )
}

/// The list of the dictionaries of the files of a version 1 torrent.
pub open spec fn spec_encode_flats(files: Seq<FlatFileModel>) -> Seq<ValueView> {
    Seq::new(files.len(), |i: int| ValueView::Dict(spec_encode_flat(files[i])))
}

/// The value of a list of files that need not be there.
pub open spec fn spec_opt_files_value(files: Option<Seq<FlatFileModel>>) -> Option<ValueView> {
    match files {
        Some(f) => Some(ValueView::List(spec_encode_flats(f))),
        None => None,
    }
}

/// The value of a length that need not be there.
pub open spec fn spec_opt_length_value(length: Option<u64>) -> Option<ValueView> {
    match length {
        Some(n) => Some(ValueView::Int(n as i64)),
        None => None,
    }
}

/// The value of a file tree that need not be there.
pub open spec fn spec_opt_tree_value(tree: Option<Seq<(Seq<char>, EntryModel)>>) -> Option<ValueView> {
    match tree {
        Some(t) => Some(ValueView::Dict(spec_encode_level(t))),
        None => None,
    }
}

/// The value of a meta version that need not be there.
pub open spec fn spec_opt_version_value(version: Option<u8>) -> Option<ValueView> {
    match version {
        Some(v) => Some(ValueView::Int(v as i64)),
        None => None,
    }
}

/// The info dictionary of a version 1 torrent.
pub open spec fn spec_encode_v1(model: MetaV1Model) -> Seq<(Seq<u8>, ValueView)> {
    (match model.files {
        FilesModel::Multiple(files) => spec_field(
            Field::Files,
            ValueView::List(spec_encode_flats(files)),
        ),
        FilesModel::Single(length) => spec_field(Field::Length, ValueView::Int(length as i64)),
    }) + spec_opt_field(Field::Md5sum, spec_opt_bytes_value(model.md5sum)) + spec_field(
        Field::Name,
        ValueView::Bytes(encode_utf8(model.name)),
    ) + spec_field(Field::PieceLength, ValueView::Int(model.piece_length as i64)) + spec_field(
        Field::Pieces,
        ValueView::Bytes(model.pieces),
    ) + spec_opt_field(Field::Private, spec_opt_flag_value(model.private))
}

/// The info dictionary of a version 2 torrent.
pub open spec fn spec_encode_v2(model: MetaV2Model) -> Seq<(Seq<u8>, ValueView)> {
    spec_field(Field::FileTree, ValueView::Dict(spec_encode_level(model.file_tree))) + spec_field(
        Field::MetaVersion,
        ValueView::Int(model.meta_version as i64),
    ) + spec_field(Field::Name, ValueView::Bytes(encode_utf8(model.name))) + spec_field(
        Field::PieceLength,
        ValueView::Int(model.piece_length as i64),
    ) + spec_opt_field(Field::Private, spec_opt_flag_value(model.private)) + spec_field(
        Field::RootHash,
        ValueView::Bytes(model.root_hash),
    )
}

/// The info dictionary of a torrent of both versions.
pub open spec fn spec_encode_hybrid(model: HybridModel) -> Seq<(Seq<u8>, ValueView)> {
    spec_opt_field(Field::FileTree, spec_opt_tree_value(model.file_tree)) + spec_opt_field(
        Field::Files,
        spec_opt_files_value(model.files),
    ) + spec_opt_field(Field::Length, spec_opt_length_value(model.length)) + spec_opt_field(
        Field::Md5sum,
        spec_opt_bytes_value(model.md5sum),
    ) + spec_opt_field(Field::MetaVersion, spec_opt_version_value(model.meta_version))
        + spec_field(Field::Name, ValueView::Bytes(encode_utf8(model.name))) + spec_field(
        Field::PieceLength,
        ValueView::Int(model.piece_length as i64),
    ) + spec_opt_field(Field::Pieces, spec_opt_bytes_value(model.pieces)) + spec_opt_field(
        Field::Private,
        spec_opt_flag_value(model.private),
    ) + spec_opt_field(Field::RootHash, spec_opt_bytes_value(model.root_hash))
}

/// The info dictionary of a torrent.
pub open spec fn spec_encode_info(model: MetaInfoModel) -> Seq<(Seq<u8>, ValueView)> {
    match model {
        MetaInfoModel::MetaV1(info) => spec_encode_v1(info),
        MetaInfoModel::MetaV2(info) => spec_encode_v2(info),
        MetaInfoModel::Hybrid(info) => spec_encode_hybrid(info),
    }
}

/// Put a field with its value behind the fields of a dictionary.
pub fn push_field(pairs: &mut Vec<(Vec<u8>, Value)>, field: Field, value: Value)
    ensures
        spec_pair_views(final(pairs)@) == spec_pair_views(old(pairs)@) + spec_field(field, value@),
{
    pairs.push((key_bytes(field), value));
    assert(spec_pair_views(final(pairs)@) =~= spec_pair_views(old(pairs)@) + spec_field(
        field,
        value@,
    ));
}

/// A list as a value.
pub fn list_value(items: Vec<Value>) -> (r: Value)
    ensures
        r@ == ValueView::List(spec_views(items@)),
{
    proof {
        lemma_list_view(items);
    }
    Value::List(items)
}

/// A dictionary as a value.
pub fn dict_value(pairs: Vec<(Vec<u8>, Value)>) -> (r: Value)
    ensures
        r@ == ValueView::Dict(spec_pair_views(pairs@)),
{
    proof {
        lemma_dict_view(pairs);
    }
    Value::Dict(pairs)
}

/// Bytes as a value.
pub fn bytes_value(bytes: &[u8]) -> (r: Value)
    ensures
        r@ == ValueView::Bytes(bytes@),
{
    Value::Bytes(vstd::slice::slice_to_vec(bytes))
}

/// A text as a value: the byte string of its UTF-8.
pub fn text_value(text: &str) -> (r: Value)
    ensures
        r@ == ValueView::Bytes(encode_utf8(text@)),
{
    Value::Bytes(vstd::slice::slice_to_vec(text.as_bytes()))
}

/// Texts as a value: the list of their byte strings.
pub fn texts_value(texts: &Vec<String>) -> (r: Value)
    ensures
        r@ == ValueView::List(spec_text_values(spec_strings(texts@))),
{
    let mut items: Vec<Value> = Vec::new();
    let mut i: usize = 0;
    while i < texts.len()
        invariant
            i <= texts@.len(),
            items@.len() == i,
            forall|k: int|
                0 <= k < i ==> (#[trigger] items@[k])@ == ValueView::Bytes(
                    encode_utf8(texts@[k]@),
                ),
        decreases texts@.len() - i,
    {
        items.push(text_value(texts[i].as_str()));
        i += 1;
    }
    assert(spec_views(items@) =~= spec_text_values(spec_strings(texts@)));
    list_value(items)
}

impl FlatFile {
    /// The dictionary of the file.
    pub fn serialize(&self) -> (r: Vec<(Vec<u8>, Value)>)
        ensures
            spec_pair_views(r@) == spec_encode_flat(self.model()),
            crate::keys::spec_keys_ascending(spec_pair_views(r@)),
    {
        let mut pairs: Vec<(Vec<u8>, Value)> = Vec::new();
        assert(spec_pair_views(pairs@) =~= Seq::<(Seq<u8>, ValueView)>::empty());
        match &self.attr {
            Some(attributes) => {
                push_field(&mut pairs, Field::Attr, Value::Bytes(attributes.letters()));
            },
            None => {},
        }
        push_field(&mut pairs, Field::Length, Value::Int(self.length.get() as i64));
        match &self.md5sum {
            Some(digest) => {
                push_field(&mut pairs, Field::Md5sum, bytes_value(digest.as_slice()));
            },
            None => {},
        }
        push_field(&mut pairs, Field::Path, texts_value(&self.path));
        match &self.sha1 {
            Some(digest) => {
                push_field(&mut pairs, Field::Sha1, bytes_value(digest.as_slice()));
            },
            None => {},
        }
        match &self.symlink_path {
            Some(path) => {
                push_field(&mut pairs, Field::SymlinkPath, texts_value(path));
            },
            None => {},
        }
        assert(spec_pair_views(pairs@) =~= spec_encode_flat(self.model()));
        proof {
            crate::keys::lemma_flat_keys(self.model());
        }
        pairs
    }
}

/// The list of the dictionaries of files.
pub fn files_value(files: &Vec<FlatFile>) -> (r: Value)
    ensures
        r@ == ValueView::List(spec_encode_flats(spec_file_models(files@))),
{
    let mut items: Vec<Value> = Vec::new();
    let mut i: usize = 0;
    while i < files.len()
        invariant
            i <= files@.len(),
            items@.len() == i,
            forall|k: int|
                0 <= k < i ==> (#[trigger] items@[k])@ == ValueView::Dict(
                    spec_encode_flat(files@[k].model()),
                ),
        decreases files@.len() - i,
    {
        items.push(dict_value(files[i].serialize()));
        i += 1;
    }
    assert(spec_views(items@) =~= spec_encode_flats(spec_file_models(files@)));
    list_value(items)
}

/// Put the flag `private` behind the fields of a dictionary, where it is
/// there.
pub fn push_private(pairs: &mut Vec<(Vec<u8>, Value)>, private: Option<bool>)
    ensures
        spec_pair_views(final(pairs)@) == spec_pair_views(old(pairs)@) + spec_opt_field(
            Field::Private,
            spec_opt_flag_value(private),
        ),
{
    match private {
        Some(flag) => {
            push_field(pairs, Field::Private, Value::Int(bool_to_int(flag)));
        },
        None => {
            assert(spec_pair_views(pairs@) + Seq::<(Seq<u8>, ValueView)>::empty()
                =~= spec_pair_views(pairs@));
        },
    }
}

/// Put a digest behind the fields of a dictionary, where it is there.
pub fn push_opt_digest<const N: usize>(
    pairs: &mut Vec<(Vec<u8>, Value)>,
    field: Field,
    digest: &Option<crate::crypto::digest::Digest<N>>,
)
    ensures
        spec_pair_views(final(pairs)@) == spec_pair_views(old(pairs)@) + spec_opt_field(
            field,
            spec_opt_bytes_value(
                match *digest {
                    Some(d) => Some(d@),
                    None => None,
                },
            ),
        ),
{
    match digest {
        Some(d) => {
            push_field(pairs, field, bytes_value(d.as_slice()));
        },
        None => {
            assert(spec_pair_views(pairs@) + Seq::<(Seq<u8>, ValueView)>::empty()
                =~= spec_pair_views(pairs@));
        },
    }
}

impl MetaV1 {
    /// The dictionary of the info.
    pub fn serialize(&self) -> (r: Vec<(Vec<u8>, Value)>)
        ensures
            spec_pair_views(r@) == spec_encode_v1(self.model()),
            crate::keys::spec_keys_ascending(spec_pair_views(r@)),
    {
        let mut pairs: Vec<(Vec<u8>, Value)> = Vec::new();
        assert(spec_pair_views(pairs@) =~= Seq::<(Seq<u8>, ValueView)>::empty());
        match &self.files {
            MetaV1FileRepr::Multiple(files) => {
                push_field(&mut pairs, Field::Files, files_value(files));
            },
            MetaV1FileRepr::Single(length) => {
                push_field(&mut pairs, Field::Length, Value::Int(length.get() as i64));
            },
        }
        push_opt_digest::<16>(&mut pairs, Field::Md5sum, &self.md5sum);
        push_field(&mut pairs, Field::Name, text_value(self.name.as_str()));
        push_field(&mut pairs, Field::PieceLength, Value::Int(self.piece_length.get() as i64));
        push_field(&mut pairs, Field::Pieces, bytes_value(self.pieces.as_slice()));
        push_private(&mut pairs, self.private);
        assert(spec_pair_views(pairs@) =~= spec_encode_v1(self.model()));
        proof {
            crate::keys::lemma_v1_keys(self.model());
        }
        pairs
    }
}

impl MetaV2 {
    /// The dictionary of the info.
    pub fn serialize(&self) -> (r: Vec<(Vec<u8>, Value)>)
        ensures
            spec_pair_views(r@) == spec_encode_v2(self.model()),
            crate::keys::spec_keys_ascending(spec_pair_views(r@)),
    {
        let mut pairs: Vec<(Vec<u8>, Value)> = Vec::new();
        assert(spec_pair_views(pairs@) =~= Seq::<(Seq<u8>, ValueView)>::empty());
        push_field(&mut pairs, Field::FileTree, dict_value(self.file_tree.serialize()));
        push_field(&mut pairs, Field::MetaVersion, Value::Int(self.meta_version as i64));
        push_field(&mut pairs, Field::Name, text_value(self.name.as_str()));
        push_field(&mut pairs, Field::PieceLength, Value::Int(self.piece_length.get() as i64));
        push_private(&mut pairs, self.private);
        push_field(&mut pairs, Field::RootHash, bytes_value(self.root_hash.as_slice()));
        assert(spec_pair_views(pairs@) =~= spec_encode_v2(self.model()));
        proof {
            crate::keys::lemma_v2_keys(self.model());
        }
        pairs
    }
}

impl Hybrid {
    /// The dictionary of the info.
    pub fn serialize(&self) -> (r: Vec<(Vec<u8>, Value)>)
        ensures
            spec_pair_views(r@) == spec_encode_hybrid(self.model()),
            crate::keys::spec_keys_ascending(spec_pair_views(r@)),
    {
        let mut pairs: Vec<(Vec<u8>, Value)> = Vec::new();
        assert(spec_pair_views(pairs@) =~= Seq::<(Seq<u8>, ValueView)>::empty());
        match &self.file_tree {
            Some(tree) => {
                push_field(&mut pairs, Field::FileTree, dict_value(tree.serialize()));
            },
            None => {},
        }
        match &self.files {
            Some(files) => {
                push_field(&mut pairs, Field::Files, files_value(files));
            },
            None => {},
        }
        match &self.length {
            Some(length) => {
                push_field(&mut pairs, Field::Length, Value::Int(length.get() as i64));
            },
            None => {},
        }
        push_opt_digest::<16>(&mut pairs, Field::Md5sum, &self.md5sum);
        match self.meta_version {
            Some(version) => {
                push_field(&mut pairs, Field::MetaVersion, Value::Int(version as i64));
            },
            None => {},
        }
        push_field(&mut pairs, Field::Name, text_value(self.name.as_str()));
        push_field(&mut pairs, Field::PieceLength, Value::Int(self.piece_length.get() as i64));
        match &self.pieces {
            Some(pieces) => {
                push_field(&mut pairs, Field::Pieces, bytes_value(pieces.as_slice()));
            },
            None => {},
        }
        push_private(&mut pairs, self.private);
        push_opt_digest::<20>(&mut pairs, Field::RootHash, &self.root_hash);
        assert(spec_pair_views(pairs@) =~= spec_encode_hybrid(self.model()));
        proof {
            crate::keys::lemma_hybrid_keys(self.model());
        }
        pairs
    }
}

impl MetaInfo {
    /// The dictionary of the info.
    pub fn serialize(&self) -> (r: Vec<(Vec<u8>, Value)>)
        ensures
            spec_pair_views(r@) == spec_encode_info(self.model()),
            crate::keys::spec_keys_ascending(spec_pair_views(r@)),
    {
        proof {
            crate::keys::lemma_info_keys(self.model());
        }
        match self {
            MetaInfo::MetaV1(info) => info.serialize(),
            MetaInfo::MetaV2(info) => info.serialize(),
            MetaInfo::Hybrid(info) => info.serialize(),
        }
    }
}

} // verus!
