//! A file tree on the wire.
//!
//! A level of the tree is a dictionary from names to dictionaries. A
//! dictionary whose only key is the empty text stands for a file, and what
//! is under that key says what the file is; any other dictionary is a
//! directory, and a level of its own.

use crate::bencode::value::spec_pair_views;
use crate::bencode::value::Value;
use crate::bencode::value::ValueView;
use crate::crypto::digest::spec_digest_from_bytes;
use crate::crypto::digest::Sha256;
use crate::dictionary::check_keys;
use crate::dictionary::opt_bytes;
use crate::dictionary::opt_int;
use crate::dictionary::spec_check_keys;
use crate::dictionary::spec_opt_bytes;
use crate::dictionary::spec_opt_int;
use crate::dictionary::spec_text;
use crate::dictionary::text;
use crate::dictionary::DecodeOptions;
use crate::error::spec_key;
use crate::error::Field;
use crate::error::ParseTorrentError;
use crate::error::ValueKind;
use crate::files::fileattributes::spec_attributes;
use crate::files::fileattributes::TorrentFileAttributes;
use crate::files::filetree::spec_entry_model;
use crate::files::filetree::spec_model_insert;
use crate::files::filetree::EntryModel;
use crate::files::filetree::FileInfoModel;
use crate::files::filetree::FileLength;
use crate::files::filetree::FileTree;
use crate::files::filetree::FileTreeEntry;
use crate::files::filetree::FileTreeInfo;
use vstd::prelude::*;

verus! {

/// The fields that the dictionary of a file knows.
pub open spec fn spec_leaf_fields() -> Seq<Field> {
    seq![Field::Attr, Field::Length, Field::PiecesRoot]
}

/// The attributes of a file: the field `attr`, which need not be there.
pub open spec fn spec_leaf_attr(dict: Seq<(Seq<u8>, ValueView)>) -> Result<
    Option<Seq<u8>>,
    ParseTorrentError,
> {
    match spec_opt_bytes(dict, Field::Attr) {
        Err(e) => Err(e),
        Ok(None) => Ok(None),
        Ok(Some(b)) => match spec_attributes(b) {
            Ok(letters) => Ok(Some(letters)),
            Err(e) => Err(ParseTorrentError::Attribute(e)),
        },
    }
}

/// The length of a file: the field `length`, which must be there and above
/// zero.
pub open spec fn spec_leaf_length(dict: Seq<(Seq<u8>, ValueView)>) -> Result<u64, ParseTorrentError> {
    match spec_opt_int(dict, Field::Length) {
        Err(e) => Err(e),
        Ok(None) => Err(ParseTorrentError::MissingField(Field::Length)),
        Ok(Some(n)) => if n <= 0 {
            Err(ParseTorrentError::InvalidValue { field: Field::Length })
        } else {
            Ok(n as u64)
        },
    }
}

/// The piece root of a file: the field `pieces root`, which need not be
/// there and must be 32 bytes.
pub open spec fn spec_leaf_root(dict: Seq<(Seq<u8>, ValueView)>) -> Result<
    Option<Seq<u8>>,
    ParseTorrentError,
> {
    match spec_opt_bytes(dict, Field::PiecesRoot) {
        Err(e) => Err(e),
        Ok(None) => Ok(None),
        Ok(Some(b)) => match spec_digest_from_bytes(b, 32) {
            Ok(d) => Ok(Some(d)),
            Err(e) => Err(ParseTorrentError::Digest { field: Field::PiecesRoot, error: e }),
        },
    }
}

/// What the dictionary of a file says of the file. The fields are read in
/// the order `attr`, `length`, `pieces root`, and the first that is wrong is
/// reported; a strict reading then refuses a key that is none of these.
pub open spec fn spec_decode_leaf(dict: Seq<(Seq<u8>, ValueView)>, strict: bool) -> Result<
    FileInfoModel,
    ParseTorrentError,
> {
    match spec_leaf_attr(dict) {
        Err(e) => Err(e),
        Ok(attr) => match spec_leaf_length(dict) {
            Err(e) => Err(e),
            Ok(length) => match spec_leaf_root(dict) {
                Err(e) => Err(e),
                Ok(pieces_root) => match spec_check_keys(
                    dict,
                    spec_leaf_fields(),
                    Field::FileTree,
                    strict,
                ) {
                    Some(e) => Err(e),
                    None => Ok(FileInfoModel { attr, length, pieces_root }),
                },
            },
        },
    }
}

/// Whether a dictionary stands for a file: its only key is the empty text.
pub open spec fn spec_is_leaf(inner: Seq<(Seq<u8>, ValueView)>) -> bool {
    inner.len() == 1 && inner[0].0.len() == 0
}

/// What a dictionary under a name stands for: a file, or a directory with
/// all that is below it.
pub open spec fn spec_decode_entry(inner: Seq<(Seq<u8>, ValueView)>, options: DecodeOptions) -> Result<
    EntryModel,
    ParseTorrentError,
>
    decreases inner, inner.len() + 1,
{
    if spec_is_leaf(inner) {
        match inner[0].1 {
            ValueView::Dict(leaf) => match spec_decode_leaf(leaf, options.strict) {
                Ok(model) => Ok(EntryModel::File(model)),
                Err(e) => Err(e),
            },
            _ => Err(
                ParseTorrentError::InvalidType { field: Field::FileTree, expected: ValueKind::Dict },
            ),
        }
    } else {
        match spec_decode_level(inner, 0, Seq::empty(), options) {
            Ok(level) => Ok(EntryModel::Directory(level)),
            Err(e) => Err(e),
        }
    }
}

/// The level that the entries of a dictionary from `from` on give, put one
/// after the other on the level `acc`. A name must be UTF-8 and stand for a
/// dictionary; a name that the level holds already is dealt with as the
/// options say.
pub open spec fn spec_decode_level(
    pairs: Seq<(Seq<u8>, ValueView)>,
    from: int,
    acc: Seq<(Seq<char>, EntryModel)>,
    options: DecodeOptions,
) -> Result<Seq<(Seq<char>, EntryModel)>, ParseTorrentError>
    decreases pairs, pairs.len() - from,
{
    if from < 0 || from >= pairs.len() {
        Ok(acc)
    } else {
        match spec_text(pairs[from].0, Field::FileTree) {
            Err(e) => Err(e),
            Ok(name) => match pairs[from].1 {
                ValueView::Dict(inner) => match spec_decode_entry(inner, options) {
                    Err(e) => Err(e),
                    Ok(entry) => match spec_model_insert(acc, name, entry, options.duplicates) {
                        None => Err(ParseTorrentError::DuplicateName),
                        Some(next) => spec_decode_level(pairs, from + 1, next, options),
                    },
                },
                _ => Err(
                    ParseTorrentError::InvalidType {
                        field: Field::FileTree,
                        expected: ValueKind::Dict,
                    },
                ),
            },
        }
    }
}

/// What a dictionary is as a file tree.
pub open spec fn spec_decode_tree(pairs: Seq<(Seq<u8>, ValueView)>, options: DecodeOptions) -> Result<
    Seq<(Seq<char>, EntryModel)>,
    ParseTorrentError,
> {
    spec_decode_level(pairs, 0, Seq::empty(), options)
}

/// The fields that the dictionary of a file knows.
pub fn leaf_fields() -> (r: Vec<Field>)
    ensures
        r@ == spec_leaf_fields(),
{
    let mut known: Vec<Field> = Vec::new();
    known.push(Field::Attr);
    known.push(Field::Length);
    known.push(Field::PiecesRoot);
    assert(known@ =~= spec_leaf_fields());
    known
}

impl FileTreeInfo {
    /// Read what a dictionary says of a file.
    pub fn try_from(dict: &Vec<(Vec<u8>, Value)>, strict: bool) -> (r: Result<
        Self,
        ParseTorrentError,
    >)
        ensures
            match spec_decode_leaf(spec_pair_views(dict@), strict) {
                Ok(model) => r matches Ok(info) && info.model() == model,
                Err(e) => r matches Err(f) && f == e,
            },
    {
        let attr = match opt_bytes(dict, Field::Attr) {
            Err(e) => {
                return Err(e);
            },
            Ok(None) => None,
            Ok(Some(b)) => match TorrentFileAttributes::try_from_bytes(b) {
                Ok(attributes) => Some(attributes),
                Err(e) => {
                    return Err(ParseTorrentError::Attribute(e));
                },
            },
        };
        let length = match opt_int(dict, Field::Length) {
            Err(e) => {
                return Err(e);
            },
            Ok(None) => {
                return Err(ParseTorrentError::MissingField(Field::Length));
            },
            Ok(Some(n)) => {
                if n <= 0 {
                    return Err(ParseTorrentError::InvalidValue { field: Field::Length });
                }
                match FileLength::new(n as u64) {
                    Some(length) => length,
                    None => {
                        return Err(ParseTorrentError::InvalidValue { field: Field::Length });
                    },
                }
            },
        };
        let pieces_root = match opt_bytes(dict, Field::PiecesRoot) {
            Err(e) => {
                return Err(e);
            },
            Ok(None) => None,
            Ok(Some(b)) => match Sha256::from_bytes(b) {
                Ok(digest) => Some(digest),
                Err(e) => {
                    return Err(ParseTorrentError::Digest { field: Field::PiecesRoot, error: e });
                },
            },
        };
        let known = leaf_fields();
        match check_keys(dict, &known, Field::FileTree, strict) {
            Err(e) => Err(e),
            Ok(_) => Ok(FileTreeInfo { attr, length, pieces_root }),
        }
    }
}

impl FileTree {
    /// Read a dictionary as a file tree.
    pub fn deserialize(pairs: &Vec<(Vec<u8>, Value)>, options: DecodeOptions) -> (r: Result<
        Self,
        ParseTorrentError,
    >)
        ensures
            match spec_decode_tree(spec_pair_views(pairs@), options) {
                Ok(level) => r matches Ok(tree) && tree.model() == level,
                Err(e) => r matches Err(f) && f == e,
            },
        decreases pairs,
    {
        let ghost views = spec_pair_views(pairs@);
        let mut tree = FileTree::new();
        assert(tree.model() =~= Seq::<(Seq<char>, EntryModel)>::empty());
        let mut i: usize = 0;
        while i < pairs.len()
            invariant
                i <= pairs@.len(),
                views == spec_pair_views(pairs@),
                spec_decode_tree(views, options) == spec_decode_level(
                    views,
                    i as int,
                    tree.model(),
                    options,
                ),
            decreases pairs@.len() - i,
        {
            assert(views[i as int] == (pairs@[i as int].0@, pairs@[i as int].1@));
            let name = match text(pairs[i].0.as_slice(), Field::FileTree) {
                Ok(name) => name,
                Err(e) => {
                    return Err(e);
                },
            };
            let inner = match pairs[i].1.as_dict() {
                Some(inner) => inner,
                None => {
                    return Err(
                        ParseTorrentError::InvalidType {
                            field: Field::FileTree,
                            expected: ValueKind::Dict,
                        },
                    );
                },
            };
            let ghost inner_views = spec_pair_views(inner@);
            let entry = if inner.len() == 1 && inner[0].0.len() == 0 {
                assert(inner_views[0] == (inner@[0].0@, inner@[0].1@));
                assert(spec_is_leaf(inner_views));
                assert(views[i as int].1 == ValueView::Dict(inner_views));
                match inner[0].1.as_dict() {
                    None => {
                        assert(spec_decode_entry(inner_views, options) == Err::<
                            EntryModel,
                            ParseTorrentError,
                        >(
                            ParseTorrentError::InvalidType {
                                field: Field::FileTree,
                                expected: ValueKind::Dict,
                            },
                        ));
                        return Err(
                            ParseTorrentError::InvalidType {
                                field: Field::FileTree,
                                expected: ValueKind::Dict,
                            },
                        );
                    },
                    Some(leaf) => match FileTreeInfo::try_from(leaf, options.strict) {
                        Ok(info) => FileTreeEntry::File(info),
                        Err(e) => {
                            return Err(e);
                        },
                    },
                }
            } else {
                proof {
                    vstd::std_specs::vec::axiom_vec_index_decreases(*pairs, i as int);
                    assert(pairs@[i as int].1->Dict_0 == *inner);
                    assert(decreases_to!(*pairs => *inner));
                    if inner@.len() == 1 {
                        assert(inner_views[0].0 == inner@[0].0@);
                    }
                    assert(!crate::files::treecodec::spec_is_leaf(inner_views));
                }
                match FileTree::deserialize(inner, options) {
                    Ok(sub) => FileTreeEntry::Directory(sub),
                    Err(e) => {
                        return Err(e);
                    },
                }
            };
            if !tree.insert(name, entry, options.duplicates) {
                return Err(ParseTorrentError::DuplicateName);
            }
            i += 1;
        }
        Ok(tree)
    }
}

/// The dictionary that says of a file what the tree holds of it: `attr`
/// where the file has attributes, `length`, and `pieces root` where the file
/// has a piece root, in this order, which is the order of the keys.
pub open spec fn spec_encode_leaf(model: FileInfoModel) -> Seq<(Seq<u8>, ValueView)> {
    let attr = match model.attr {
        Some(letters) => seq![(spec_key(Field::Attr), ValueView::Bytes(letters))],
        None => Seq::empty(),
    };
    let root = match model.pieces_root {
        Some(digest) => seq![(spec_key(Field::PiecesRoot), ValueView::Bytes(digest))],
        None => Seq::empty(),
    };
    attr + seq![(spec_key(Field::Length), ValueView::Int(model.length as i64))] + root
}

/// The dictionary that stands for an entry: for a file the dictionary whose
/// only key is the empty text, for a directory the dictionary of its level.
pub open spec fn spec_encode_entry(entry: EntryModel) -> Seq<(Seq<u8>, ValueView)>
    decreases entry,
{
    match entry {
        EntryModel::File(model) => seq![
            (Seq::<u8>::empty(), ValueView::Dict(spec_encode_leaf(model))),
        ],
        EntryModel::Directory(level) => spec_encode_level(level),
    }
}

/// The dictionary of a level: each name with the dictionary that stands for
/// its entry, in the order of the level.
pub open spec fn spec_encode_level(level: Seq<(Seq<char>, EntryModel)>) -> Seq<(Seq<u8>, ValueView)>
    decreases level,
{
    Seq::new(
        level.len(),
        |i: int|
            if 0 <= i < level.len() {
                (
                    vstd::utf8::encode_utf8(level[i].0),
                    ValueView::Dict(spec_encode_entry(level[i].1)),
                )
            } else {
                (Seq::empty(), ValueView::Int(0))
            },
    )
}

/// The key of a field as a byte string of its own.
pub fn key_bytes(field: Field) -> (r: Vec<u8>)
    ensures
        r@ == spec_key(field),
{
    vstd::slice::slice_to_vec(crate::error::key(field).as_bytes())
}

impl FileTreeInfo {
    /// The dictionary that says of the file what the tree holds of it.
    pub fn serialize(&self) -> (r: Vec<(Vec<u8>, Value)>)
        ensures
            spec_pair_views(r@) == spec_encode_leaf(self.model()),
            crate::keys::spec_keys_ascending(spec_pair_views(r@)),
    {
        let mut pairs: Vec<(Vec<u8>, Value)> = Vec::new();
        match &self.attr {
            Some(attributes) => {
                pairs.push((key_bytes(Field::Attr), Value::Bytes(attributes.letters())));
            },
            None => {},
        }
        pairs.push((key_bytes(Field::Length), Value::Int(self.length.get() as i64)));
        match &self.pieces_root {
            Some(digest) => {
                pairs.push(
                    (
                        key_bytes(Field::PiecesRoot),
                        Value::Bytes(vstd::slice::slice_to_vec(digest.as_slice())),
                    ),
                );
            },
            None => {},
        }
        assert(spec_pair_views(pairs@) =~= spec_encode_leaf(self.model()));
        proof {
            crate::keys::lemma_leaf_keys(self.model());
        }
        pairs
    }
}

impl FileTree {
    /// The dictionary of the tree, with its keys in ascending order.
    pub fn serialize(&self) -> (r: Vec<(Vec<u8>, Value)>)
        ensures
            spec_pair_views(r@) == spec_encode_level(self.model()),
            crate::keys::spec_keys_ascending(spec_pair_views(r@)),
        decreases self,
    {
        self.names_ascending();
        let ghost level = self.model();
        let mut pairs: Vec<(Vec<u8>, Value)> = Vec::new();
        let mut i: usize = 0;
        while i < self.len()
            invariant
                i <= self.entries().len(),
                level == self.model(),
                pairs@.len() == i,
                forall|k: int|
                    0 <= k < i ==> (#[trigger] pairs@[k]).0@ == vstd::utf8::encode_utf8(level[k].0)
                        && pairs@[k].1@ == ValueView::Dict(spec_encode_entry(level[k].1)),
            decreases self.entries().len() - i,
        {
            let name = vstd::slice::slice_to_vec(self.name(i).as_bytes());
            let entry = self.entry(i);
            proof {
                self.lemma_entries_decrease();
                assert(level[i as int] == (
                    self.entries()[i as int].0@,
                    spec_entry_model(self.entries()[i as int].1),
                ));
            }
            let inner = match entry {
                FileTreeEntry::File(info) => {
                    let mut inner: Vec<(Vec<u8>, Value)> = Vec::new();
                    let leaf = info.serialize();
                    proof {
                        crate::bencode::value::lemma_dict_view(leaf);
                    }
                    inner.push((Vec::new(), Value::Dict(leaf)));
                    assert(spec_pair_views(inner@) =~= spec_encode_entry(level[i as int].1));
                    inner
                },
                FileTreeEntry::Directory(sub) => {
                    assert(decreases_to!(self.entries() => self.entries()[i as int]));
                    assert(self.entries()[i as int].1->Directory_0 == *sub);
                    sub.serialize()
                },
            };
            proof {
                crate::bencode::value::lemma_dict_view(inner);
            }
            pairs.push((name, Value::Dict(inner)));
            i += 1;
        }
        assert(spec_pair_views(pairs@) =~= spec_encode_level(level));
        proof {
            let views = spec_pair_views(pairs@);
            assert forall|a: int, b: int| 0 <= a < b < views.len() implies crate::text::spec_bytes_lt(
                (#[trigger] views[a]).0,
                (#[trigger] views[b]).0,
            ) by {
                assert(level[a].0 == self.entries()[a].0@);
                assert(level[b].0 == self.entries()[b].0@);
                assert(views[a].0 == pairs@[a].0@);
                assert(views[b].0 == pairs@[b].0@);
            }
        }
        pairs
    }
}

} // verus!
