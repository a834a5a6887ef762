//! Reading the fields of a dictionary.
//!
//! A field is looked up by its key; where a key stands more than once the
//! first entry counts. A field that is there must hold a value of the kind
//! that the field asks for.

use crate::bencode::value::lookup;
use crate::bencode::value::spec_get;
use crate::bencode::value::spec_lookup;
use crate::bencode::value::spec_pair_views;
use crate::bencode::value::Value;
use crate::bencode::value::ValueView;
use crate::error::key;
use crate::error::spec_key;
use crate::error::Field;
use crate::error::ParseTorrentError;
use crate::error::ValueKind;
use crate::text::bytes_eq;
use crate::text::str_from_utf8;
use vstd::prelude::*;
use vstd::string::StringSliceAdditionalSpecFns;
use vstd::utf8::decode_utf8;
use vstd::utf8::valid_utf8;

verus! {

/// How strictly a torrent is read.
#[derive(Debug, Clone, Copy, PartialEq, Eq, Structural)]
pub struct DecodeOptions {
    /// Whether a key that a dictionary does not know is an error. Torrents
    /// in the wild carry such keys; to refuse them shows a malformed torrent
    /// early.
    pub strict: bool,
    /// What to do with a name that stands twice on one level of a file tree.
    pub duplicates: crate::files::filetree::DuplicatePolicy,
}

/// The place of a field in a dictionary.
pub fn find(pairs: &Vec<(Vec<u8>, Value)>, field: Field) -> (r: Option<usize>)
    ensures
        match spec_lookup(spec_pair_views(pairs@), spec_key(field)) {
            Some(i) => r matches Some(found) && found == i && 0 <= i < pairs@.len() && spec_get(
                spec_pair_views(pairs@),
                spec_key(field),
            ) == Some(pairs@[i].1@),
            None => r is None && spec_get(spec_pair_views(pairs@), spec_key(field)) is None,
        },
{
    let found = lookup(pairs, key(field));
    proof {
        if let Some(i) = found {
            assert(spec_pair_views(pairs@)[i as int].1 == pairs@[i as int].1@);
        }
    }
    found
}

/// The integer of a field that need not be there.
pub open spec fn spec_opt_int(dict: Seq<(Seq<u8>, ValueView)>, field: Field) -> Result<
    Option<i64>,
    ParseTorrentError,
> {
    match spec_get(dict, spec_key(field)) {
        None => Ok(None),
        Some(ValueView::Int(n)) => Ok(Some(n)),
        Some(_) => Err(ParseTorrentError::InvalidType { field, expected: ValueKind::Int }),
    }
}

/// The bytes of a field that need not be there.
pub open spec fn spec_opt_bytes(dict: Seq<(Seq<u8>, ValueView)>, field: Field) -> Result<
    Option<Seq<u8>>,
    ParseTorrentError,
> {
    match spec_get(dict, spec_key(field)) {
        None => Ok(None),
        Some(ValueView::Bytes(b)) => Ok(Some(b)),
        Some(_) => Err(ParseTorrentError::InvalidType { field, expected: ValueKind::Bytes }),
    }
}

/// The text that bytes are, which must be UTF-8.
pub open spec fn spec_text(bytes: Seq<u8>, field: Field) -> Result<Seq<char>, ParseTorrentError> {
    if valid_utf8(bytes) {
        Ok(decode_utf8(bytes))
    } else {
        Err(ParseTorrentError::InvalidText { field })
    }
}

/// The text of a field that need not be there.
pub open spec fn spec_opt_text(dict: Seq<(Seq<u8>, ValueView)>, field: Field) -> Result<
    Option<Seq<char>>,
    ParseTorrentError,
> {
    match spec_opt_bytes(dict, field) {
        Err(e) => Err(e),
        Ok(None) => Ok(None),
        Ok(Some(b)) => match spec_text(b, field) {
            Err(e) => Err(e),
            Ok(text) => Ok(Some(text)),
        },
    }
}

/// The values of the list of a field that need not be there.
pub open spec fn spec_opt_list(dict: Seq<(Seq<u8>, ValueView)>, field: Field) -> Result<
    Option<Seq<ValueView>>,
    ParseTorrentError,
> {
    match spec_get(dict, spec_key(field)) {
        None => Ok(None),
        Some(ValueView::List(items)) => Ok(Some(items)),
        Some(_) => Err(ParseTorrentError::InvalidType { field, expected: ValueKind::List }),
    }
}

/// The dictionary of a field that need not be there.
pub open spec fn spec_opt_dict(dict: Seq<(Seq<u8>, ValueView)>, field: Field) -> Result<
    Option<Seq<(Seq<u8>, ValueView)>>,
    ParseTorrentError,
> {
    match spec_get(dict, spec_key(field)) {
        None => Ok(None),
        Some(ValueView::Dict(pairs)) => Ok(Some(pairs)),
        Some(_) => Err(ParseTorrentError::InvalidType { field, expected: ValueKind::Dict }),
    }
}

/// The integer of a field that need not be there.
pub fn opt_int(pairs: &Vec<(Vec<u8>, Value)>, field: Field) -> (r: Result<
    Option<i64>,
    ParseTorrentError,
>)
    ensures
        r == spec_opt_int(spec_pair_views(pairs@), field),
{
    match find(pairs, field) {
        None => Ok(None),
        Some(i) => match pairs[i].1.as_int() {
            Some(n) => Ok(Some(n)),
            None => Err(ParseTorrentError::InvalidType { field, expected: ValueKind::Int }),
        },
    }
}

/// The bytes of a field that need not be there.
pub fn opt_bytes(pairs: &Vec<(Vec<u8>, Value)>, field: Field) -> (r: Result<
    Option<&[u8]>,
    ParseTorrentError,
>)
    ensures
        match spec_opt_bytes(spec_pair_views(pairs@), field) {
            Ok(Some(b)) => r matches Ok(Some(found)) && found@ == b,
            Ok(None) => r matches Ok(None),
            Err(e) => r matches Err(f) && f == e,
        },
{
    match find(pairs, field) {
        None => Ok(None),
        Some(i) => match pairs[i].1.as_bytes() {
            Some(b) => Ok(Some(b)),
            None => Err(ParseTorrentError::InvalidType { field, expected: ValueKind::Bytes }),
        },
    }
}

/// The text that bytes are, which must be UTF-8.
pub fn text(bytes: &[u8], field: Field) -> (r: Result<String, ParseTorrentError>)
    ensures
        match spec_text(bytes@, field) {
            Ok(t) => r matches Ok(found) && found@ == t,
            Err(e) => r matches Err(f) && f == e,
        },
{
    match str_from_utf8(bytes) {
        Ok(s) => {
            proof {
                vstd::utf8::encode_utf8_decode_utf8(s@);
            }
            Ok(s.to_owned())
        },
        Err(_) => Err(ParseTorrentError::InvalidText { field }),
    }
}

/// The text of a field that need not be there.
pub fn opt_text(pairs: &Vec<(Vec<u8>, Value)>, field: Field) -> (r: Result<
    Option<String>,
    ParseTorrentError,
>)
    ensures
        match spec_opt_text(spec_pair_views(pairs@), field) {
            Ok(Some(t)) => r matches Ok(Some(found)) && found@ == t,
            Ok(None) => r matches Ok(None),
            Err(e) => r matches Err(f) && f == e,
        },
{
    match opt_bytes(pairs, field) {
        Err(e) => Err(e),
        Ok(None) => Ok(None),
        Ok(Some(b)) => match text(b, field) {
            Err(e) => Err(e),
            Ok(t) => Ok(Some(t)),
        },
    }
}

/// The place of a field that holds a list, if the field is there.
pub fn opt_list(pairs: &Vec<(Vec<u8>, Value)>, field: Field) -> (r: Result<
    Option<usize>,
    ParseTorrentError,
>)
    ensures
        match spec_opt_list(spec_pair_views(pairs@), field) {
            Ok(Some(items)) => r matches Ok(Some(i)) && i < pairs@.len() && pairs@[i as int].1@
                == ValueView::List(items),
            Ok(None) => r matches Ok(None),
            Err(e) => r matches Err(f) && f == e,
        },
{
    match find(pairs, field) {
        None => Ok(None),
        Some(i) => match pairs[i].1.as_list() {
            Some(_) => Ok(Some(i)),
            None => Err(ParseTorrentError::InvalidType { field, expected: ValueKind::List }),
        },
    }
}

/// The place of a field that holds a dictionary, if the field is there.
pub fn opt_dict(pairs: &Vec<(Vec<u8>, Value)>, field: Field) -> (r: Result<
    Option<usize>,
    ParseTorrentError,
>)
    ensures
        match spec_opt_dict(spec_pair_views(pairs@), field) {
            Ok(Some(inner)) => r matches Ok(Some(i)) && i < pairs@.len() && pairs@[i as int].1@
                == ValueView::Dict(inner),
            Ok(None) => r matches Ok(None),
            Err(e) => r matches Err(f) && f == e,
        },
{
    match find(pairs, field) {
        None => Ok(None),
        Some(i) => match pairs[i].1.as_dict() {
            Some(_) => Ok(Some(i)),
            None => Err(ParseTorrentError::InvalidType { field, expected: ValueKind::Dict }),
        },
    }
}

/// Whether `key` is the key of one of the fields `known`.
pub open spec fn spec_known(known: Seq<Field>, key: Seq<u8>) -> bool {
    exists|j: int| 0 <= j < known.len() && spec_key(#[trigger] known[j]) == key
}

/// The place of the first entry from `from` on whose key is that of none of
/// the fields `known`.
pub open spec fn spec_first_unknown(pairs: Seq<(Seq<u8>, ValueView)>, known: Seq<Field>, from: int) -> Option<
    int,
>
    decreases pairs.len() - from,
{
    if from < 0 || from >= pairs.len() {
        None
    } else if !spec_known(known, pairs[from].0) {
        Some(from)
    } else {
        spec_first_unknown(pairs, known, from + 1)
    }
}

/// What a strict reading has against the keys of a dictionary: the first key
/// that the dictionary of `within` does not know.
pub open spec fn spec_check_keys(
    pairs: Seq<(Seq<u8>, ValueView)>,
    known: Seq<Field>,
    within: Field,
    strict: bool,
) -> Option<ParseTorrentError> {
    if !strict {
        None
    } else {
        match spec_first_unknown(pairs, known, 0) {
            Some(index) => Some(
                ParseTorrentError::UnknownField { within, index: index as usize },
            ),
            None => None,
        }
    }
}

/// Whether `key` is the key of one of the fields `known`.
pub fn is_known(known: &Vec<Field>, key: &[u8]) -> (r: bool)
    ensures
        r == spec_known(known@, key@),
{
    let mut j: usize = 0;
    while j < known.len()
        invariant
            j <= known@.len(),
            forall|k: int| 0 <= k < j ==> spec_key(#[trigger] known@[k]) != key@,
        decreases known@.len() - j,
    {
        if bytes_eq(crate::error::key(known[j]).as_bytes(), key) {
            return true;
        }
        j += 1;
    }
    false
}

/// Hold the keys of a dictionary against the fields that it knows.
pub fn check_keys(pairs: &Vec<(Vec<u8>, Value)>, known: &Vec<Field>, within: Field, strict: bool) -> (r:
    Result<(), ParseTorrentError>)
    ensures
        match spec_check_keys(spec_pair_views(pairs@), known@, within, strict) {
            Some(e) => r matches Err(f) && f == e,
            None => r is Ok,
        },
{
    if !strict {
        return Ok(());
    }
    let ghost views = spec_pair_views(pairs@);
    let mut i: usize = 0;
    while i < pairs.len()
        invariant
            i <= pairs@.len(),
            strict,
            views == spec_pair_views(pairs@),
            spec_first_unknown(views, known@, 0) == spec_first_unknown(views, known@, i as int),
        decreases pairs@.len() - i,
    {
        assert(views[i as int].0 == pairs@[i as int].0@);
        if !is_known(known, pairs[i].0.as_slice()) {
            return Err(ParseTorrentError::UnknownField { within, index: i });
        }
        i += 1;
    }
    Ok(())
}

/// The digest of `n` bytes of a field that need not be there.
pub open spec fn spec_opt_digest(dict: Seq<(Seq<u8>, ValueView)>, field: Field, n: usize) -> Result<
    Option<Seq<u8>>,
    ParseTorrentError,
> {
    match spec_opt_bytes(dict, field) {
        Err(e) => Err(e),
        Ok(None) => Ok(None),
        Ok(Some(b)) => match crate::crypto::digest::spec_digest_from_bytes(b, n) {
            Ok(d) => Ok(Some(d)),
            Err(e) => Err(ParseTorrentError::Digest { field, error: e }),
        },
    }
}

/// The digest of a field that need not be there.
pub fn opt_digest<const N: usize>(pairs: &Vec<(Vec<u8>, Value)>, field: Field) -> (r: Result<
    Option<crate::crypto::digest::Digest<N>>,
    ParseTorrentError,
>)
    ensures
        match spec_opt_digest(spec_pair_views(pairs@), field, N) {
            Ok(Some(d)) => r matches Ok(Some(found)) && found@ == d,
            Ok(None) => r matches Ok(None),
            Err(e) => r matches Err(f) && f == e,
        },
{
    match opt_bytes(pairs, field) {
        Err(e) => Err(e),
        Ok(None) => Ok(None),
        Ok(Some(b)) => match crate::crypto::digest::Digest::<N>::from_bytes(b) {
            Ok(d) => Ok(Some(d)),
            Err(e) => Err(ParseTorrentError::Digest { field, error: e }),
        },
    }
}

/// The length of a file in the field `length`, if the field is there: an
/// integer above zero.
pub open spec fn spec_opt_length(dict: Seq<(Seq<u8>, ValueView)>) -> Result<
    Option<u64>,
    ParseTorrentError,
> {
    match spec_opt_int(dict, Field::Length) {
        Err(e) => Err(e),
        Ok(None) => Ok(None),
        Ok(Some(n)) => if n <= 0 {
            Err(ParseTorrentError::InvalidValue { field: Field::Length })
        } else {
            Ok(Some(n as u64))
        },
    }
}

/// The length of a file in the field `length`, if the field is there.
pub fn opt_length(pairs: &Vec<(Vec<u8>, Value)>) -> (r: Result<
    Option<crate::files::filetree::FileLength>,
    ParseTorrentError,
>)
    ensures
        match spec_opt_length(spec_pair_views(pairs@)) {
            Ok(Some(n)) => r matches Ok(Some(found)) && found@ == n,
            Ok(None) => r matches Ok(None),
            Err(e) => r matches Err(f) && f == e,
        },
{
    match opt_int(pairs, Field::Length) {
        Err(e) => Err(e),
        Ok(None) => Ok(None),
        Ok(Some(n)) => {
            if n <= 0 {
                return Err(ParseTorrentError::InvalidValue { field: Field::Length });
            }
            match crate::files::filetree::FileLength::new(n as u64) {
                Some(length) => Ok(Some(length)),
                None => Err(ParseTorrentError::InvalidValue { field: Field::Length }),
            }
        },
    }
}

/// The attributes in the field `attr`, if the field is there.
pub open spec fn spec_opt_attr(dict: Seq<(Seq<u8>, ValueView)>) -> Result<
    Option<Seq<u8>>,
    ParseTorrentError,
> {
    match spec_opt_bytes(dict, Field::Attr) {
        Err(e) => Err(e),
        Ok(None) => Ok(None),
        Ok(Some(b)) => match crate::files::fileattributes::spec_attributes(b) {
            Ok(letters) => Ok(Some(letters)),
            Err(e) => Err(ParseTorrentError::Attribute(e)),
        },
    }
}

/// The attributes in the field `attr`, if the field is there.
pub fn opt_attr(pairs: &Vec<(Vec<u8>, Value)>) -> (r: Result<
    Option<crate::files::fileattributes::TorrentFileAttributes>,
    ParseTorrentError,
>)
    ensures
        match spec_opt_attr(spec_pair_views(pairs@)) {
            Ok(Some(letters)) => r matches Ok(Some(found)) && found.spec_letters() == letters,
            Ok(None) => r matches Ok(None),
            Err(e) => r matches Err(f) && f == e,
        },
{
    match opt_bytes(pairs, Field::Attr) {
        Err(e) => Err(e),
        Ok(None) => Ok(None),
        Ok(Some(b)) => match crate::files::fileattributes::TorrentFileAttributes::try_from_bytes(
            b,
        ) {
            Ok(attributes) => Ok(Some(attributes)),
            Err(e) => Err(ParseTorrentError::Attribute(e)),
        },
    }
}

/// The texts that the values of a list are, from the place `from` on: each
/// must be a byte string that is UTF-8.
pub open spec fn spec_texts(items: Seq<ValueView>, from: int, field: Field) -> Result<
    Seq<Seq<char>>,
    ParseTorrentError,
>
    decreases items.len() - from,
{
    if from < 0 || from >= items.len() {
        Ok(Seq::empty())
    } else {
        match items[from] {
            ValueView::Bytes(b) => match spec_text(b, field) {
                Err(e) => Err(e),
                Ok(first) => match spec_texts(items, from + 1, field) {
                    Err(e) => Err(e),
                    Ok(more) => Ok(seq![first] + more),
                },
            },
            _ => Err(ParseTorrentError::InvalidType { field, expected: ValueKind::Bytes }),
        }
    }
}

/// The texts of strings, as contracts see them.
pub open spec fn spec_strings(texts: Seq<String>) -> Seq<Seq<char>> {
    Seq::new(texts.len(), |i: int| texts[i]@)
}

/// What is read with `front` put before it.
pub open spec fn spec_texts_after(
    front: Seq<Seq<char>>,
    r: Result<Seq<Seq<char>>, ParseTorrentError>,
) -> Result<Seq<Seq<char>>, ParseTorrentError> {
    match r {
        Ok(more) => Ok(front + more),
        Err(e) => Err(e),
    }
}

/// The texts that the values of a list are.
pub fn texts(items: &Vec<Value>, field: Field) -> (r: Result<Vec<String>, ParseTorrentError>)
    ensures
        match spec_texts(crate::bencode::value::spec_views(items@), 0, field) {
            Ok(t) => r matches Ok(found) && spec_strings(found@) == t,
            Err(e) => r matches Err(f) && f == e,
        },
{
    let ghost views = crate::bencode::value::spec_views(items@);
    let mut out: Vec<String> = Vec::new();
    let mut i: usize = 0;
    assert(spec_strings(out@) + Seq::<Seq<char>>::empty() =~= Seq::<Seq<char>>::empty());
    proof {
        match spec_texts(views, 0, field) {
            Ok(t) => {
                assert(spec_strings(out@) + t =~= t);
            },
            Err(_) => {},
        }
    }
    while i < items.len()
        invariant
            i <= items@.len(),
            views == crate::bencode::value::spec_views(items@),
            spec_texts(views, 0, field) == spec_texts_after(
                spec_strings(out@),
                spec_texts(views, i as int, field),
            ),
        decreases items@.len() - i,
    {
        assert(views[i as int] == items@[i as int]@);
        let bytes = match items[i].as_bytes() {
            Some(b) => b,
            None => {
                return Err(ParseTorrentError::InvalidType { field, expected: ValueKind::Bytes });
            },
        };
        let one = match text(bytes, field) {
            Ok(t) => t,
            Err(e) => {
                return Err(e);
            },
        };
        proof {
            let before = spec_strings(out@);
            assert(spec_strings(out@.push(one)) =~= before + seq![one@]);
            match spec_texts(views, i + 1, field) {
                Ok(more) => {
                    assert((before + seq![one@]) + more =~= before + (seq![one@] + more));
                },
                Err(_) => {},
            }
        }
        out.push(one);
        i += 1;
    }
    proof {
        assert(spec_strings(out@) + Seq::<Seq<char>>::empty() =~= spec_strings(out@));
    }
    Ok(out)
}

/// The texts of the list in a field that need not be there.
pub open spec fn spec_opt_texts(dict: Seq<(Seq<u8>, ValueView)>, field: Field) -> Result<
    Option<Seq<Seq<char>>>,
    ParseTorrentError,
> {
    match spec_opt_list(dict, field) {
        Err(e) => Err(e),
        Ok(None) => Ok(None),
        Ok(Some(items)) => match spec_texts(items, 0, field) {
            Err(e) => Err(e),
            Ok(t) => Ok(Some(t)),
        },
    }
}

/// The texts of the list in a field that need not be there.
pub fn opt_texts(pairs: &Vec<(Vec<u8>, Value)>, field: Field) -> (r: Result<
    Option<Vec<String>>,
    ParseTorrentError,
>)
    ensures
        match spec_opt_texts(spec_pair_views(pairs@), field) {
            Ok(Some(t)) => r matches Ok(Some(found)) && spec_strings(found@) == t,
            Ok(None) => r matches Ok(None),
            Err(e) => r matches Err(f) && f == e,
        },
{
    match opt_list(pairs, field) {
        Err(e) => Err(e),
        Ok(None) => Ok(None),
        Ok(Some(i)) => match pairs[i].1.as_list() {
            None => Ok(None),
            Some(items) => match texts(items, field) {
                Err(e) => Err(e),
                Ok(t) => Ok(Some(t)),
            },
        },
    }
}

/// The text of the field `name`, which must be there.
pub open spec fn spec_name(dict: Seq<(Seq<u8>, ValueView)>) -> Result<Seq<char>, ParseTorrentError> {
    match spec_opt_text(dict, Field::Name) {
        Err(e) => Err(e),
        Ok(None) => Err(ParseTorrentError::MissingField(Field::Name)),
        Ok(Some(name)) => Ok(name),
    }
}

/// The text of the field `name`, which must be there.
pub fn name(pairs: &Vec<(Vec<u8>, Value)>) -> (r: Result<String, ParseTorrentError>)
    ensures
        match spec_name(spec_pair_views(pairs@)) {
            Ok(t) => r matches Ok(found) && found@ == t,
            Err(e) => r matches Err(f) && f == e,
        },
{
    match opt_text(pairs, Field::Name) {
        Err(e) => Err(e),
        Ok(None) => Err(ParseTorrentError::MissingField(Field::Name)),
        Ok(Some(name)) => Ok(name),
    }
}

/// The piece length of the field `piece length`, which must be there.
pub open spec fn spec_req_piece_length(dict: Seq<(Seq<u8>, ValueView)>) -> Result<
    u64,
    ParseTorrentError,
> {
    match spec_opt_int(dict, Field::PieceLength) {
        Err(e) => Err(e),
        Ok(None) => Err(ParseTorrentError::MissingField(Field::PieceLength)),
        Ok(Some(n)) => crate::pieces::spec_piece_length(n),
    }
}

/// The piece length of the field `piece length`, which must be there.
pub fn req_piece_length(pairs: &Vec<(Vec<u8>, Value)>) -> (r: Result<
    crate::pieces::PieceLength,
    ParseTorrentError,
>)
    ensures
        match spec_req_piece_length(spec_pair_views(pairs@)) {
            Ok(n) => r matches Ok(found) && found@ == n,
            Err(e) => r matches Err(f) && f == e,
        },
{
    match opt_int(pairs, Field::PieceLength) {
        Err(e) => Err(e),
        Ok(None) => Err(ParseTorrentError::MissingField(Field::PieceLength)),
        Ok(Some(n)) => crate::pieces::PieceLength::deserialize(n),
    }
}

/// The digests of the field `pieces`, if the field is there.
pub open spec fn spec_opt_pieces(dict: Seq<(Seq<u8>, ValueView)>) -> Result<
    Option<Seq<u8>>,
    ParseTorrentError,
> {
    match spec_opt_bytes(dict, Field::Pieces) {
        Err(e) => Err(e),
        Ok(None) => Ok(None),
        Ok(Some(b)) => match crate::pieces::spec_pieces(b) {
            Ok(p) => Ok(Some(p)),
            Err(e) => Err(e),
        },
    }
}

/// The digests of the field `pieces`, if the field is there.
pub fn opt_pieces(pairs: &Vec<(Vec<u8>, Value)>) -> (r: Result<
    Option<crate::pieces::Pieces>,
    ParseTorrentError,
>)
    ensures
        match spec_opt_pieces(spec_pair_views(pairs@)) {
            Ok(Some(p)) => r matches Ok(Some(found)) && found@ == p,
            Ok(None) => r matches Ok(None),
            Err(e) => r matches Err(f) && f == e,
        },
{
    match opt_bytes(pairs, Field::Pieces) {
        Err(e) => Err(e),
        Ok(None) => Ok(None),
        Ok(Some(b)) => match crate::pieces::Pieces::deserialize(b) {
            Ok(p) => Ok(Some(p)),
            Err(e) => Err(e),
        },
    }
}

/// The files of the field `files`, if the field is there.
pub open spec fn spec_opt_files(dict: Seq<(Seq<u8>, ValueView)>, strict: bool) -> Result<
    Option<Seq<crate::files::flatfile::FlatFileModel>>,
    ParseTorrentError,
> {
    match spec_opt_list(dict, Field::Files) {
        Err(e) => Err(e),
        Ok(None) => Ok(None),
        Ok(Some(items)) => match crate::files::flatfile::spec_decode_flats(items, 0, strict) {
            Err(e) => Err(e),
            Ok(files) => Ok(Some(files)),
        },
    }
}

/// The files of the field `files`, if the field is there.
pub fn opt_files(pairs: &Vec<(Vec<u8>, Value)>, strict: bool) -> (r: Result<
    Option<Vec<crate::files::flatfile::FlatFile>>,
    ParseTorrentError,
>)
    ensures
        match spec_opt_files(spec_pair_views(pairs@), strict) {
            Ok(Some(files)) => r matches Ok(Some(found))
                && crate::files::flatfile::spec_file_models(found@) == files,
            Ok(None) => r matches Ok(None),
            Err(e) => r matches Err(f) && f == e,
        },
{
    match opt_list(pairs, Field::Files) {
        Err(e) => Err(e),
        Ok(None) => Ok(None),
        Ok(Some(i)) => match pairs[i].1.as_list() {
            None => Ok(None),
            Some(items) => match crate::files::flatfile::FlatFile::deserialize_all(items, strict) {
                Err(e) => Err(e),
                Ok(files) => Ok(Some(files)),
            },
        },
    }
}

/// The file tree of the field `file tree`, if the field is there.
pub open spec fn spec_opt_tree(dict: Seq<(Seq<u8>, ValueView)>, options: DecodeOptions) -> Result<
    Option<Seq<(Seq<char>, crate::files::filetree::EntryModel)>>,
    ParseTorrentError,
> {
    match spec_opt_dict(dict, Field::FileTree) {
        Err(e) => Err(e),
        Ok(None) => Ok(None),
        Ok(Some(inner)) => match crate::files::treecodec::spec_decode_tree(inner, options) {
            Err(e) => Err(e),
            Ok(tree) => Ok(Some(tree)),
        },
    }
}

/// The file tree of the field `file tree`, if the field is there.
pub fn opt_tree(pairs: &Vec<(Vec<u8>, Value)>, options: DecodeOptions) -> (r: Result<
    Option<crate::files::filetree::FileTree>,
    ParseTorrentError,
>)
    ensures
        match spec_opt_tree(spec_pair_views(pairs@), options) {
            Ok(Some(tree)) => r matches Ok(Some(found)) && found.model() == tree,
            Ok(None) => r matches Ok(None),
            Err(e) => r matches Err(f) && f == e,
        },
{
    match opt_dict(pairs, Field::FileTree) {
        Err(e) => Err(e),
        Ok(None) => Ok(None),
        Ok(Some(i)) => match pairs[i].1.as_dict() {
            None => Ok(None),
            Some(inner) => match crate::files::filetree::FileTree::deserialize(inner, options) {
                Err(e) => Err(e),
                Ok(tree) => Ok(Some(tree)),
            },
        },
    }
}

/// The meta version of the field `meta version`, if the field is there: an
/// integer from 0 to 255.
pub open spec fn spec_opt_version(dict: Seq<(Seq<u8>, ValueView)>) -> Result<
    Option<u8>,
    ParseTorrentError,
> {
    match spec_opt_int(dict, Field::MetaVersion) {
        Err(e) => Err(e),
        Ok(None) => Ok(None),
        Ok(Some(n)) => if 0 <= n <= 255 {
            Ok(Some(n as u8))
        } else {
            Err(ParseTorrentError::InvalidVersion(n))
        },
    }
}

/// The meta version of the field `meta version`, if the field is there.
pub fn opt_version(pairs: &Vec<(Vec<u8>, Value)>) -> (r: Result<Option<u8>, ParseTorrentError>)
    ensures
        r == spec_opt_version(spec_pair_views(pairs@)),
{
    match opt_int(pairs, Field::MetaVersion) {
        Err(e) => Err(e),
        Ok(None) => Ok(None),
        Ok(Some(n)) => {
            if 0 <= n && n <= 255 {
                Ok(Some(n as u8))
            } else {
                Err(ParseTorrentError::InvalidVersion(n))
            }
        },
    }
}

} // verus!
