//! The keys of the fields, byte by byte, and their order.
//!
//! A dictionary is canonical where its keys stand in ascending order of
//! their bytes. The dictionaries of a torrent are written with their fields
//! in a fixed order; that this order is the ascending one is shown here.

use crate::bencode::value::ValueView;
use crate::error::spec_key;
use crate::error::spec_key_text;
use crate::error::Field;
use crate::text::lemma_ascii_is_utf8;
use crate::text::spec_ascii_chars;
use crate::text::spec_bytes_lt;
use crate::crypto::signature::spec_encode_signature;
use crate::crypto::signature::SignatureModel;
use crate::files::filetree::FileInfoModel;
use crate::files::flatfile::FilesModel;
use crate::files::flatfile::FlatFileModel;
use crate::files::treecodec::spec_encode_leaf;
use crate::files::treecodec::spec_encode_level;
use crate::metainfo::encode::spec_encode_flat;
use crate::metainfo::encode::spec_encode_flats;
use crate::metainfo::encode::spec_encode_hybrid;
use crate::metainfo::encode::spec_encode_info;
use crate::metainfo::encode::spec_encode_v1;
use crate::metainfo::encode::spec_encode_v2;
use crate::metainfo::encode::spec_field;
use crate::metainfo::encode::spec_opt_bytes_value;
use crate::metainfo::encode::spec_opt_field;
use crate::metainfo::encode::spec_opt_files_value;
use crate::metainfo::encode::spec_opt_flag_value;
use crate::metainfo::encode::spec_opt_length_value;
use crate::metainfo::encode::spec_opt_texts_value;
use crate::metainfo::encode::spec_opt_tree_value;
use crate::metainfo::encode::spec_opt_version_value;
use crate::metainfo::encode::spec_text_values;
use crate::metainfo::hybrid::HybridModel;
use crate::metainfo::metav1::MetaV1Model;
use crate::metainfo::metav2::MetaV2Model;
use crate::metainfo::resolve::MetaInfoModel;
use crate::torrent::spec_encode_layers;
use crate::torrent::spec_encode_torrent;
use crate::torrent::spec_opt_text_value;
use crate::torrent::spec_opt_uri_value;
use crate::torrent::spec_opt_uris_value;
use crate::torrent::TorrentModel;
use crate::uri::lists::spec_node_values;
use crate::uri::lists::spec_tier_values;
use vstd::utf8::encode_utf8;
use vstd::prelude::*;

verus! {

/// The bytes of the key of a field.
pub open spec fn spec_key_bytes(field: Field) -> Seq<u8> {
    match field {
        Field::Announce => seq![0x61u8, 0x6eu8, 0x6eu8, 0x6fu8, 0x75u8, 0x6eu8, 0x63u8, 0x65u8],
        Field::AnnounceList => seq![0x61u8, 0x6eu8, 0x6eu8, 0x6fu8, 0x75u8, 0x6eu8, 0x63u8, 0x65u8, 0x2du8, 0x6cu8, 0x69u8, 0x73u8, 0x74u8],
        Field::CreatedBy => seq![0x63u8, 0x72u8, 0x65u8, 0x61u8, 0x74u8, 0x65u8, 0x64u8, 0x20u8, 0x62u8, 0x79u8],
        Field::Comment => seq![0x63u8, 0x6fu8, 0x6du8, 0x6du8, 0x65u8, 0x6eu8, 0x74u8],
        Field::CreationDate => seq![0x63u8, 0x72u8, 0x65u8, 0x61u8, 0x74u8, 0x69u8, 0x6fu8, 0x6eu8, 0x20u8, 0x64u8, 0x61u8, 0x74u8, 0x65u8],
        Field::Encoding => seq![0x65u8, 0x6eu8, 0x63u8, 0x6fu8, 0x64u8, 0x69u8, 0x6eu8, 0x67u8],
        Field::Httpseeds => seq![0x68u8, 0x74u8, 0x74u8, 0x70u8, 0x73u8, 0x65u8, 0x65u8, 0x64u8, 0x73u8],
        Field::Info => seq![0x69u8, 0x6eu8, 0x66u8, 0x6fu8],
        Field::Nodes => seq![0x6eu8, 0x6fu8, 0x64u8, 0x65u8, 0x73u8],
        Field::PieceLayers => seq![0x70u8, 0x69u8, 0x65u8, 0x63u8, 0x65u8, 0x20u8, 0x6cu8, 0x61u8, 0x79u8, 0x65u8, 0x72u8, 0x73u8],
        Field::PublisherUrl => seq![0x70u8, 0x75u8, 0x62u8, 0x6cu8, 0x69u8, 0x73u8, 0x68u8, 0x65u8, 0x72u8, 0x2du8, 0x75u8, 0x72u8, 0x6cu8],
        Field::Signatures => seq![0x73u8, 0x69u8, 0x67u8, 0x6eu8, 0x61u8, 0x74u8, 0x75u8, 0x72u8, 0x65u8, 0x73u8],
        Field::UrlList => seq![0x75u8, 0x72u8, 0x6cu8, 0x2du8, 0x6cu8, 0x69u8, 0x73u8, 0x74u8],
        Field::Files => seq![0x66u8, 0x69u8, 0x6cu8, 0x65u8, 0x73u8],
        Field::FileTree => seq![0x66u8, 0x69u8, 0x6cu8, 0x65u8, 0x20u8, 0x74u8, 0x72u8, 0x65u8, 0x65u8],
        Field::Length => seq![0x6cu8, 0x65u8, 0x6eu8, 0x67u8, 0x74u8, 0x68u8],
        Field::Md5sum => seq![0x6du8, 0x64u8, 0x35u8, 0x73u8, 0x75u8, 0x6du8],
        Field::Name => seq![0x6eu8, 0x61u8, 0x6du8, 0x65u8],
        Field::Pieces => seq![0x70u8, 0x69u8, 0x65u8, 0x63u8, 0x65u8, 0x73u8],
        Field::PieceLength => seq![0x70u8, 0x69u8, 0x65u8, 0x63u8, 0x65u8, 0x20u8, 0x6cu8, 0x65u8, 0x6eu8, 0x67u8, 0x74u8, 0x68u8],
        Field::Private => seq![0x70u8, 0x72u8, 0x69u8, 0x76u8, 0x61u8, 0x74u8, 0x65u8],
        Field::RootHash => seq![0x72u8, 0x6fu8, 0x6fu8, 0x74u8, 0x20u8, 0x68u8, 0x61u8, 0x73u8, 0x68u8],
        Field::MetaVersion => seq![0x6du8, 0x65u8, 0x74u8, 0x61u8, 0x20u8, 0x76u8, 0x65u8, 0x72u8, 0x73u8, 0x69u8, 0x6fu8, 0x6eu8],
        Field::SymlinkPath => seq![0x73u8, 0x79u8, 0x6du8, 0x6cu8, 0x69u8, 0x6eu8, 0x6bu8, 0x20u8, 0x70u8, 0x61u8, 0x74u8, 0x68u8],
        Field::Attr => seq![0x61u8, 0x74u8, 0x74u8, 0x72u8],
        Field::PiecesRoot => seq![0x70u8, 0x69u8, 0x65u8, 0x63u8, 0x65u8, 0x73u8, 0x20u8, 0x72u8, 0x6fu8, 0x6fu8, 0x74u8],
        Field::Path => seq![0x70u8, 0x61u8, 0x74u8, 0x68u8],
        Field::Sha1 => seq![0x73u8, 0x68u8, 0x61u8, 0x31u8],
        Field::Certificate => seq![0x63u8, 0x65u8, 0x72u8, 0x74u8, 0x69u8, 0x66u8, 0x69u8, 0x63u8, 0x61u8, 0x74u8, 0x65u8],
        Field::Signature => seq![0x73u8, 0x69u8, 0x67u8, 0x6eu8, 0x61u8, 0x74u8, 0x75u8, 0x72u8, 0x65u8],
        Field::Torrent => Seq::empty(),
    }
}

/// The key of a field is the bytes that `spec_key_bytes` lists.
pub proof fn lemma_key_bytes(field: Field)
    ensures
        spec_key(field) == spec_key_bytes(field),
{
    let bytes = spec_key_bytes(field);
    assert(crate::text::spec_is_ascii(bytes));
    lemma_ascii_is_utf8(bytes);
    match field {
        Field::Announce => {
            reveal_strlit("announce");
            assert(spec_key_text(field) =~= spec_ascii_chars(bytes));
        },
        Field::AnnounceList => {
            reveal_strlit("announce-list");
            assert(spec_key_text(field) =~= spec_ascii_chars(bytes));
        },
        Field::CreatedBy => {
            reveal_strlit("created by");
            assert(spec_key_text(field) =~= spec_ascii_chars(bytes));
        },
        Field::Comment => {
            reveal_strlit("comment");
            assert(spec_key_text(field) =~= spec_ascii_chars(bytes));
        },
        Field::CreationDate => {
            reveal_strlit("creation date");
            assert(spec_key_text(field) =~= spec_ascii_chars(bytes));
        },
        Field::Encoding => {
            reveal_strlit("encoding");
            assert(spec_key_text(field) =~= spec_ascii_chars(bytes));
        },
        Field::Httpseeds => {
            reveal_strlit("httpseeds");
            assert(spec_key_text(field) =~= spec_ascii_chars(bytes));
        },
        Field::Info => {
            reveal_strlit("info");
            assert(spec_key_text(field) =~= spec_ascii_chars(bytes));
        },
        Field::Nodes => {
            reveal_strlit("nodes");
            assert(spec_key_text(field) =~= spec_ascii_chars(bytes));
        },
        Field::PieceLayers => {
            reveal_strlit("piece layers");
            assert(spec_key_text(field) =~= spec_ascii_chars(bytes));
        },
        Field::PublisherUrl => {
            reveal_strlit("publisher-url");
            assert(spec_key_text(field) =~= spec_ascii_chars(bytes));
        },
        Field::Signatures => {
            reveal_strlit("signatures");
            assert(spec_key_text(field) =~= spec_ascii_chars(bytes));
        },
        Field::UrlList => {
            reveal_strlit("url-list");
            assert(spec_key_text(field) =~= spec_ascii_chars(bytes));
        },
        Field::Files => {
            reveal_strlit("files");
            assert(spec_key_text(field) =~= spec_ascii_chars(bytes));
        },
        Field::FileTree => {
            reveal_strlit("file tree");
            assert(spec_key_text(field) =~= spec_ascii_chars(bytes));
        },
        Field::Length => {
            reveal_strlit("length");
            assert(spec_key_text(field) =~= spec_ascii_chars(bytes));
        },
        Field::Md5sum => {
            reveal_strlit("md5sum");
            assert(spec_key_text(field) =~= spec_ascii_chars(bytes));
        },
        Field::Name => {
            reveal_strlit("name");
            assert(spec_key_text(field) =~= spec_ascii_chars(bytes));
        },
        Field::Pieces => {
            reveal_strlit("pieces");
            assert(spec_key_text(field) =~= spec_ascii_chars(bytes));
        },
        Field::PieceLength => {
            reveal_strlit("piece length");
            assert(spec_key_text(field) =~= spec_ascii_chars(bytes));
        },
        Field::Private => {
            reveal_strlit("private");
            assert(spec_key_text(field) =~= spec_ascii_chars(bytes));
        },
        Field::RootHash => {
            reveal_strlit("root hash");
            assert(spec_key_text(field) =~= spec_ascii_chars(bytes));
        },
        Field::MetaVersion => {
            reveal_strlit("meta version");
            assert(spec_key_text(field) =~= spec_ascii_chars(bytes));
        },
        Field::SymlinkPath => {
            reveal_strlit("symlink path");
            assert(spec_key_text(field) =~= spec_ascii_chars(bytes));
        },
        Field::Attr => {
            reveal_strlit("attr");
            assert(spec_key_text(field) =~= spec_ascii_chars(bytes));
        },
        Field::PiecesRoot => {
            reveal_strlit("pieces root");
            assert(spec_key_text(field) =~= spec_ascii_chars(bytes));
        },
        Field::Path => {
            reveal_strlit("path");
            assert(spec_key_text(field) =~= spec_ascii_chars(bytes));
        },
        Field::Sha1 => {
            reveal_strlit("sha1");
            assert(spec_key_text(field) =~= spec_ascii_chars(bytes));
        },
        Field::Certificate => {
            reveal_strlit("certificate");
            assert(spec_key_text(field) =~= spec_ascii_chars(bytes));
        },
        Field::Signature => {
            reveal_strlit("signature");
            assert(spec_key_text(field) =~= spec_ascii_chars(bytes));
        },
        Field::Torrent => {
            reveal_strlit("");
            assert(spec_key_text(field) =~= spec_ascii_chars(bytes));
        },
    }
}

/// The place of a field among all fields, in ascending order of their keys.
pub open spec fn spec_rank(field: Field) -> int {
    match field {
        Field::Torrent => 0,
        Field::Announce => 1,
        Field::AnnounceList => 2,
        Field::Attr => 3,
        Field::Certificate => 4,
        Field::Comment => 5,
        Field::CreatedBy => 6,
        Field::CreationDate => 7,
        Field::Encoding => 8,
        Field::FileTree => 9,
        Field::Files => 10,
        Field::Httpseeds => 11,
        Field::Info => 12,
        Field::Length => 13,
        Field::Md5sum => 14,
        Field::MetaVersion => 15,
        Field::Name => 16,
        Field::Nodes => 17,
        Field::Path => 18,
        Field::PieceLayers => 19,
        Field::PieceLength => 20,
        Field::Pieces => 21,
        Field::PiecesRoot => 22,
        Field::Private => 23,
        Field::PublisherUrl => 24,
        Field::RootHash => 25,
        Field::Sha1 => 26,
        Field::Signature => 27,
        Field::Signatures => 28,
        Field::SymlinkPath => 29,
        Field::UrlList => 30,
    }
}

/// The field at a place among all fields.
pub open spec fn spec_field_at(rank: int) -> Field {
    if rank == 0 {
        Field::Torrent
    }     else if rank == 1 {
        Field::Announce
    }     else if rank == 2 {
        Field::AnnounceList
    }     else if rank == 3 {
        Field::Attr
    }     else if rank == 4 {
        Field::Certificate
    }     else if rank == 5 {
        Field::Comment
    }     else if rank == 6 {
        Field::CreatedBy
    }     else if rank == 7 {
        Field::CreationDate
    }     else if rank == 8 {
        Field::Encoding
    }     else if rank == 9 {
        Field::FileTree
    }     else if rank == 10 {
        Field::Files
    }     else if rank == 11 {
        Field::Httpseeds
    }     else if rank == 12 {
        Field::Info
    }     else if rank == 13 {
        Field::Length
    }     else if rank == 14 {
        Field::Md5sum
    }     else if rank == 15 {
        Field::MetaVersion
    }     else if rank == 16 {
        Field::Name
    }     else if rank == 17 {
        Field::Nodes
    }     else if rank == 18 {
        Field::Path
    }     else if rank == 19 {
        Field::PieceLayers
    }     else if rank == 20 {
        Field::PieceLength
    }     else if rank == 21 {
        Field::Pieces
    }     else if rank == 22 {
        Field::PiecesRoot
    }     else if rank == 23 {
        Field::Private
    }     else if rank == 24 {
        Field::PublisherUrl
    }     else if rank == 25 {
        Field::RootHash
    }     else if rank == 26 {
        Field::Sha1
    }     else if rank == 27 {
        Field::Signature
    }     else if rank == 28 {
        Field::Signatures
    }     else if rank == 29 {
        Field::SymlinkPath
    } else {
        Field::UrlList
    }
}

/// A byte string comes before another where, at the first place at which
/// they differ, it has the smaller byte.
pub proof fn lemma_bytes_lt_at(a: Seq<u8>, b: Seq<u8>, k: int)
    requires
        0 <= k < a.len(),
        k < b.len(),
        forall|i: int| 0 <= i < k ==> a[i] == b[i],
        a[k] < b[k],
    ensures
        spec_bytes_lt(a, b),
    decreases k,
{
    if k > 0 {
        assert(a[0] == b[0]);
        lemma_bytes_lt_at(a.drop_first(), b.drop_first(), k - 1);
    }
}

/// A byte string comes before every longer one that begins with it.
pub proof fn lemma_bytes_lt_prefix(a: Seq<u8>, b: Seq<u8>)
    requires
        a.len() < b.len(),
        forall|i: int| 0 <= i < a.len() ==> a[i] == b[i],
    ensures
        spec_bytes_lt(a, b),
    decreases a.len(),
{
    if a.len() > 0 {
        assert(a[0] == b[0]);
        lemma_bytes_lt_prefix(a.drop_first(), b.drop_first());
    }
}

/// The key of the field at a place comes before the key of the field at
/// the next place.
pub proof fn lemma_rank_step(rank: int)
    requires
        0 <= rank < 30,
    ensures
        spec_bytes_lt(spec_key(spec_field_at(rank)), spec_key(spec_field_at(rank + 1))),
{
    lemma_key_bytes(spec_field_at(rank));
    lemma_key_bytes(spec_field_at(rank + 1));
    let a = spec_key_bytes(spec_field_at(rank));
    let b = spec_key_bytes(spec_field_at(rank + 1));
    if rank == 0 {
        lemma_bytes_lt_prefix(a, b);
    }
    else if rank == 1 {
        lemma_bytes_lt_prefix(a, b);
    }
    else if rank == 2 {
        lemma_bytes_lt_at(a, b, 1);
    }
    else if rank == 3 {
        lemma_bytes_lt_at(a, b, 0);
    }
    else if rank == 4 {
        lemma_bytes_lt_at(a, b, 1);
    }
    else if rank == 5 {
        lemma_bytes_lt_at(a, b, 1);
    }
    else if rank == 6 {
        lemma_bytes_lt_at(a, b, 5);
    }
    else if rank == 7 {
        lemma_bytes_lt_at(a, b, 0);
    }
    else if rank == 8 {
        lemma_bytes_lt_at(a, b, 0);
    }
    else if rank == 9 {
        lemma_bytes_lt_at(a, b, 4);
    }
    else if rank == 10 {
        lemma_bytes_lt_at(a, b, 0);
    }
    else if rank == 11 {
        lemma_bytes_lt_at(a, b, 0);
    }
    else if rank == 12 {
        lemma_bytes_lt_at(a, b, 0);
    }
    else if rank == 13 {
        lemma_bytes_lt_at(a, b, 0);
    }
    else if rank == 14 {
        lemma_bytes_lt_at(a, b, 1);
    }
    else if rank == 15 {
        lemma_bytes_lt_at(a, b, 0);
    }
    else if rank == 16 {
        lemma_bytes_lt_at(a, b, 1);
    }
    else if rank == 17 {
        lemma_bytes_lt_at(a, b, 0);
    }
    else if rank == 18 {
        lemma_bytes_lt_at(a, b, 1);
    }
    else if rank == 19 {
        lemma_bytes_lt_at(a, b, 7);
    }
    else if rank == 20 {
        lemma_bytes_lt_at(a, b, 5);
    }
    else if rank == 21 {
        lemma_bytes_lt_prefix(a, b);
    }
    else if rank == 22 {
        lemma_bytes_lt_at(a, b, 1);
    }
    else if rank == 23 {
        lemma_bytes_lt_at(a, b, 1);
    }
    else if rank == 24 {
        lemma_bytes_lt_at(a, b, 0);
    }
    else if rank == 25 {
        lemma_bytes_lt_at(a, b, 0);
    }
    else if rank == 26 {
        lemma_bytes_lt_at(a, b, 1);
    }
    else if rank == 27 {
        lemma_bytes_lt_prefix(a, b);
    }
    else if rank == 28 {
        lemma_bytes_lt_at(a, b, 1);
    }
    else if rank == 29 {
        lemma_bytes_lt_at(a, b, 0);
    }
}

/// A field at an earlier place has the key that comes first.
pub proof fn lemma_rank_order(f: Field, g: Field)
    requires
        spec_rank(f) < spec_rank(g),
    ensures
        spec_bytes_lt(spec_key(f), spec_key(g)),
    decreases spec_rank(g) - spec_rank(f),
{
    let next = spec_field_at(spec_rank(f) + 1);
    lemma_rank_step(spec_rank(f));
    assert(spec_field_at(spec_rank(f)) == f);
    if spec_rank(f) + 1 < spec_rank(g) {
        assert(spec_rank(next) == spec_rank(f) + 1);
        lemma_rank_order(next, g);
        crate::text::lemma_bytes_lt_transitive(spec_key(f), spec_key(next), spec_key(g));
    } else {
        assert(spec_field_at(spec_rank(g)) == g);
    }
}

/// Whether the keys of a dictionary stand in ascending order of their bytes,
/// none twice.
pub open spec fn spec_keys_ascending(pairs: Seq<(Seq<u8>, ValueView)>) -> bool {
    forall|i: int, j: int|
        0 <= i < j < pairs.len() ==> spec_bytes_lt((#[trigger] pairs[i]).0, (#[trigger] pairs[j]).0)
}

/// Whether `key` is the key of a field before the place `bound`.
pub open spec fn spec_key_below(key: Seq<u8>, bound: int) -> bool {
    exists|f: Field| key == spec_key(f) && spec_rank(f) < bound
}

/// Whether a dictionary holds keys of fields only, in ascending order, all
/// of them of fields before the place `bound`.
pub open spec fn spec_fields_below(pairs: Seq<(Seq<u8>, ValueView)>, bound: int) -> bool {
    &&& spec_keys_ascending(pairs)
    &&& forall|i: int| 0 <= i < pairs.len() ==> spec_key_below((#[trigger] pairs[i]).0, bound)
}

/// A dictionary of fields stays one where a field that comes behind all of
/// them is put behind them, or nothing is.
pub proof fn lemma_fields_push(
    front: Seq<(Seq<u8>, ValueView)>,
    field: Field,
    added: Seq<(Seq<u8>, ValueView)>,
    bound: int,
)
    requires
        spec_fields_below(front, spec_rank(field)),
        spec_rank(field) < bound,
        added.len() == 0 || (added.len() == 1 && added[0].0 == spec_key(field)),
    ensures
        spec_fields_below(front + added, bound),
{
    let all = front + added;
    assert forall|i: int| 0 <= i < all.len() implies spec_key_below(
        (#[trigger] all[i]).0,
        bound,
    ) by {
        if i < front.len() {
            assert(all[i] == front[i]);
            assert(spec_key_below(front[i].0, spec_rank(field)));
            let f = choose|f: Field| front[i].0 == spec_key(f) && spec_rank(f) < spec_rank(field);
            assert(all[i].0 == spec_key(f) && spec_rank(f) < bound);
        } else {
            assert(all[i] == added[0]);
            assert(all[i].0 == spec_key(field) && spec_rank(field) < bound);
        }
    }
    assert forall|i: int, j: int| 0 <= i < j < all.len() implies spec_bytes_lt(
        (#[trigger] all[i]).0,
        (#[trigger] all[j]).0,
    ) by {
        if j < front.len() {
            assert(all[i] == front[i] && all[j] == front[j]);
        } else {
            assert(all[i] == front[i]);
            assert(all[j] == added[0]);
            assert(spec_key_below(front[i].0, spec_rank(field)));
            let f = choose|f: Field| front[i].0 == spec_key(f) && spec_rank(f) < spec_rank(field);
            lemma_rank_order(f, field);
        }
    }
}

/// The dictionary of a file of a tree is written with its keys in ascending
/// order.
pub proof fn lemma_leaf_keys(model: FileInfoModel)
    ensures
        spec_keys_ascending(spec_encode_leaf(model)),
{
    let p0 = Seq::<(Seq<u8>, ValueView)>::empty();
    let a1 = (match model.attr {
        Some(letters) => seq![(spec_key(Field::Attr), ValueView::Bytes(letters))],
        None => Seq::empty(),
    });
    lemma_fields_push(p0, Field::Attr, a1, spec_rank(Field::Length));
    let p1 = p0 + a1;
    let a2 = seq![(spec_key(Field::Length), ValueView::Int(model.length as i64))];
    lemma_fields_push(p1, Field::Length, a2, spec_rank(Field::PiecesRoot));
    let p2 = p1 + a2;
    let a3 = (match model.pieces_root {
        Some(digest) => seq![(spec_key(Field::PiecesRoot), ValueView::Bytes(digest))],
        None => Seq::empty(),
    });
    lemma_fields_push(p2, Field::PiecesRoot, a3, spec_rank(Field::PiecesRoot) + 1);
    let p3 = p2 + a3;
    assert(p3 =~= spec_encode_leaf(model));
}

/// The dictionary of a file of a version 1 torrent is written with its keys
/// in ascending order.
pub proof fn lemma_flat_keys(model: FlatFileModel)
    ensures
        spec_keys_ascending(spec_encode_flat(model)),
{
    let p0 = Seq::<(Seq<u8>, ValueView)>::empty();
    let a1 = spec_opt_field(Field::Attr, spec_opt_bytes_value(model.attr));
    lemma_fields_push(p0, Field::Attr, a1, spec_rank(Field::Length));
    let p1 = p0 + a1;
    let a2 = spec_field(Field::Length, ValueView::Int(model.length as i64));
    lemma_fields_push(p1, Field::Length, a2, spec_rank(Field::Md5sum));
    let p2 = p1 + a2;
    let a3 = spec_opt_field(Field::Md5sum, spec_opt_bytes_value(model.md5sum));
    lemma_fields_push(p2, Field::Md5sum, a3, spec_rank(Field::Path));
    let p3 = p2 + a3;
    let a4 = spec_field(Field::Path, ValueView::List(spec_text_values(model.path)));
    lemma_fields_push(p3, Field::Path, a4, spec_rank(Field::Sha1));
    let p4 = p3 + a4;
    let a5 = spec_opt_field(Field::Sha1, spec_opt_bytes_value(model.sha1));
    lemma_fields_push(p4, Field::Sha1, a5, spec_rank(Field::SymlinkPath));
    let p5 = p4 + a5;
    let a6 = spec_opt_field(Field::SymlinkPath, spec_opt_texts_value(model.symlink_path));
    lemma_fields_push(p5, Field::SymlinkPath, a6, spec_rank(Field::SymlinkPath) + 1);
    let p6 = p5 + a6;
    assert(p6 =~= spec_encode_flat(model));
}

/// The info dictionary of a version 1 torrent is written with its keys in
/// ascending order.
pub proof fn lemma_v1_keys(model: MetaV1Model)
    ensures
        spec_keys_ascending(spec_encode_v1(model)),
{
    let p0 = Seq::<(Seq<u8>, ValueView)>::empty();
    let a1 = (match model.files {
        FilesModel::Multiple(files) => spec_field(
            Field::Files,
            ValueView::List(spec_encode_flats(files)),
        ),
        FilesModel::Single(_) => Seq::empty(),
    });
    lemma_fields_push(p0, Field::Files, a1, spec_rank(Field::Length));
    let p1 = p0 + a1;
    let a2 = (match model.files {
        FilesModel::Multiple(_) => Seq::empty(),
        FilesModel::Single(length) => spec_field(Field::Length, ValueView::Int(length as i64)),
    });
    lemma_fields_push(p1, Field::Length, a2, spec_rank(Field::Md5sum));
    let p2 = p1 + a2;
    let a3 = spec_opt_field(Field::Md5sum, spec_opt_bytes_value(model.md5sum));
    lemma_fields_push(p2, Field::Md5sum, a3, spec_rank(Field::Name));
    let p3 = p2 + a3;
    let a4 = spec_field(Field::Name, ValueView::Bytes(encode_utf8(model.name)));
    lemma_fields_push(p3, Field::Name, a4, spec_rank(Field::PieceLength));
    let p4 = p3 + a4;
    let a5 = spec_field(Field::PieceLength, ValueView::Int(model.piece_length as i64));
    lemma_fields_push(p4, Field::PieceLength, a5, spec_rank(Field::Pieces));
    let p5 = p4 + a5;
    let a6 = spec_field(Field::Pieces, ValueView::Bytes(model.pieces));
    lemma_fields_push(p5, Field::Pieces, a6, spec_rank(Field::Private));
    let p6 = p5 + a6;
    let a7 = spec_opt_field(Field::Private, spec_opt_flag_value(model.private));
    lemma_fields_push(p6, Field::Private, a7, spec_rank(Field::Private) + 1);
    let p7 = p6 + a7;
    assert(p7 =~= spec_encode_v1(model));
}

/// The info dictionary of a version 2 torrent is written with its keys in
/// ascending order.
pub proof fn lemma_v2_keys(model: MetaV2Model)
    ensures
        spec_keys_ascending(spec_encode_v2(model)),
{
    let p0 = Seq::<(Seq<u8>, ValueView)>::empty();
    let a1 = spec_field(Field::FileTree, ValueView::Dict(spec_encode_level(model.file_tree)));
    lemma_fields_push(p0, Field::FileTree, a1, spec_rank(Field::MetaVersion));
    let p1 = p0 + a1;
    let a2 = spec_field(Field::MetaVersion, ValueView::Int(model.meta_version as i64));
    lemma_fields_push(p1, Field::MetaVersion, a2, spec_rank(Field::Name));
    let p2 = p1 + a2;
    let a3 = spec_field(Field::Name, ValueView::Bytes(encode_utf8(model.name)));
    lemma_fields_push(p2, Field::Name, a3, spec_rank(Field::PieceLength));
    let p3 = p2 + a3;
    let a4 = spec_field(Field::PieceLength, ValueView::Int(model.piece_length as i64));
    lemma_fields_push(p3, Field::PieceLength, a4, spec_rank(Field::Private));
    let p4 = p3 + a4;
    let a5 = spec_opt_field(Field::Private, spec_opt_flag_value(model.private));
    lemma_fields_push(p4, Field::Private, a5, spec_rank(Field::RootHash));
    let p5 = p4 + a5;
    let a6 = spec_field(Field::RootHash, ValueView::Bytes(model.root_hash));
    lemma_fields_push(p5, Field::RootHash, a6, spec_rank(Field::RootHash) + 1);
    let p6 = p5 + a6;
    assert(p6 =~= spec_encode_v2(model));
}

/// The info dictionary of a torrent of both versions is written with its
/// keys in ascending order.
pub proof fn lemma_hybrid_keys(model: HybridModel)
    ensures
        spec_keys_ascending(spec_encode_hybrid(model)),
{
    let p0 = Seq::<(Seq<u8>, ValueView)>::empty();
    let a1 = spec_opt_field(Field::FileTree, spec_opt_tree_value(model.file_tree));
    lemma_fields_push(p0, Field::FileTree, a1, spec_rank(Field::Files));
    let p1 = p0 + a1;
    let a2 = spec_opt_field(Field::Files, spec_opt_files_value(model.files));
    lemma_fields_push(p1, Field::Files, a2, spec_rank(Field::Length));
    let p2 = p1 + a2;
    let a3 = spec_opt_field(Field::Length, spec_opt_length_value(model.length));
    lemma_fields_push(p2, Field::Length, a3, spec_rank(Field::Md5sum));
    let p3 = p2 + a3;
    let a4 = spec_opt_field(Field::Md5sum, spec_opt_bytes_value(model.md5sum));
    lemma_fields_push(p3, Field::Md5sum, a4, spec_rank(Field::MetaVersion));
    let p4 = p3 + a4;
    let a5 = spec_opt_field(Field::MetaVersion, spec_opt_version_value(model.meta_version));
    lemma_fields_push(p4, Field::MetaVersion, a5, spec_rank(Field::Name));
    let p5 = p4 + a5;
    let a6 = spec_field(Field::Name, ValueView::Bytes(encode_utf8(model.name)));
    lemma_fields_push(p5, Field::Name, a6, spec_rank(Field::PieceLength));
    let p6 = p5 + a6;
    let a7 = spec_field(Field::PieceLength, ValueView::Int(model.piece_length as i64));
    lemma_fields_push(p6, Field::PieceLength, a7, spec_rank(Field::Pieces));
    let p7 = p6 + a7;
    let a8 = spec_opt_field(Field::Pieces, spec_opt_bytes_value(model.pieces));
    lemma_fields_push(p7, Field::Pieces, a8, spec_rank(Field::Private));
    let p8 = p7 + a8;
    let a9 = spec_opt_field(Field::Private, spec_opt_flag_value(model.private));
    lemma_fields_push(p8, Field::Private, a9, spec_rank(Field::RootHash));
    let p9 = p8 + a9;
    let a10 = spec_opt_field(Field::RootHash, spec_opt_bytes_value(model.root_hash));
    lemma_fields_push(p9, Field::RootHash, a10, spec_rank(Field::RootHash) + 1);
    let p10 = p9 + a10;
    assert(p10 =~= spec_encode_hybrid(model));
}

/// The info dictionary of a torrent is written with its keys in ascending
/// order, whatever its version.
pub proof fn lemma_info_keys(model: MetaInfoModel)
    ensures
        spec_keys_ascending(spec_encode_info(model)),
{
    match model {
        MetaInfoModel::MetaV1(info) => lemma_v1_keys(info),
        MetaInfoModel::MetaV2(info) => lemma_v2_keys(info),
        MetaInfoModel::Hybrid(info) => lemma_hybrid_keys(info),
    }
}

/// The dictionary of a signature is written with its keys in ascending
/// order.
pub proof fn lemma_signature_keys(model: SignatureModel)
    ensures
        spec_keys_ascending(spec_encode_signature(model)),
{
    let p0 = Seq::<(Seq<u8>, ValueView)>::empty();
    let a1 = spec_opt_field(
        Field::Certificate,
        match model.certificate {
            Some(c) => Some(ValueView::Bytes(encode_utf8(c))),
            None => None,
        },
    );
    lemma_fields_push(p0, Field::Certificate, a1, spec_rank(Field::Info));
    let p1 = p0 + a1;
    let a2 = spec_opt_field(
        Field::Info,
        if model.info {
            Some(ValueView::Dict(Seq::empty()))
        } else {
            None
        },
    );
    lemma_fields_push(p1, Field::Info, a2, spec_rank(Field::Signature));
    let p2 = p1 + a2;
    let a3 = spec_field(Field::Signature, ValueView::Bytes(model.signature));
    lemma_fields_push(p2, Field::Signature, a3, spec_rank(Field::Signature) + 1);
    let p3 = p2 + a3;
    assert(p3 =~= spec_encode_signature(model));
}

/// The dictionary of a torrent is written with its keys in ascending order.
pub proof fn lemma_torrent_keys(model: TorrentModel)
    ensures
        spec_keys_ascending(spec_encode_torrent(model)),
{
    let p0 = Seq::<(Seq<u8>, ValueView)>::empty();
    let a1 = spec_opt_field(Field::Announce, spec_opt_uri_value(model.announce));
    lemma_fields_push(p0, Field::Announce, a1, spec_rank(Field::AnnounceList));
    let p1 = p0 + a1;
    let a2 = spec_opt_field(
        Field::AnnounceList,
        match model.announce_list {
            Some(t) => Some(ValueView::List(spec_tier_values(t))),
            None => None,
        },
    );
    lemma_fields_push(p1, Field::AnnounceList, a2, spec_rank(Field::Comment));
    let p2 = p1 + a2;
    let a3 = spec_opt_field(Field::Comment, spec_opt_text_value(model.comment));
    lemma_fields_push(p2, Field::Comment, a3, spec_rank(Field::CreatedBy));
    let p3 = p2 + a3;
    let a4 = spec_opt_field(Field::CreatedBy, spec_opt_text_value(model.created_by));
    lemma_fields_push(p3, Field::CreatedBy, a4, spec_rank(Field::CreationDate));
    let p4 = p3 + a4;
    let a5 = spec_opt_field(
        Field::CreationDate,
        match model.creation_date {
            Some(d) => Some(ValueView::Int(d as i64)),
            None => None,
        },
    );
    lemma_fields_push(p4, Field::CreationDate, a5, spec_rank(Field::Encoding));
    let p5 = p4 + a5;
    let a6 = spec_opt_field(Field::Encoding, spec_opt_text_value(model.encoding));
    lemma_fields_push(p5, Field::Encoding, a6, spec_rank(Field::Httpseeds));
    let p6 = p5 + a6;
    let a7 = spec_opt_field(Field::Httpseeds, spec_opt_uris_value(model.httpseeds));
    lemma_fields_push(p6, Field::Httpseeds, a7, spec_rank(Field::Info));
    let p7 = p6 + a7;
    let a8 = spec_field(Field::Info, ValueView::Dict(spec_encode_info(model.info)));
    lemma_fields_push(p7, Field::Info, a8, spec_rank(Field::Nodes));
    let p8 = p7 + a8;
    let a9 = spec_opt_field(
        Field::Nodes,
        match model.nodes {
            Some(n) => Some(ValueView::List(spec_node_values(n))),
            None => None,
        },
    );
    lemma_fields_push(p8, Field::Nodes, a9, spec_rank(Field::PieceLayers));
    let p9 = p8 + a9;
    let a10 = spec_opt_field(
        Field::PieceLayers,
        match model.piece_layers {
            Some(l) => Some(ValueView::Dict(spec_encode_layers(l))),
            None => None,
        },
    );
    lemma_fields_push(p9, Field::PieceLayers, a10, spec_rank(Field::PublisherUrl));
    let p10 = p9 + a10;
    let a11 = spec_opt_field(Field::PublisherUrl, spec_opt_uri_value(model.publisher_url));
    lemma_fields_push(p10, Field::PublisherUrl, a11, spec_rank(Field::Signatures));
    let p11 = p10 + a11;
    let a12 = spec_opt_field(
        Field::Signatures,
        match model.signatures {
            Some(s) => Some(ValueView::Dict(crate::crypto::signature::spec_encode_signatures(s))),
            None => None,
        },
    );
    lemma_fields_push(p11, Field::Signatures, a12, spec_rank(Field::UrlList));
    let p12 = p11 + a12;
    let a13 = spec_opt_field(Field::UrlList, spec_opt_uris_value(model.url_list));
    lemma_fields_push(p12, Field::UrlList, a13, spec_rank(Field::UrlList) + 1);
    let p13 = p12 + a13;
    assert(p13 =~= spec_encode_torrent(model));
}

} // verus!
