//! A torrent.
//!
//! A torrent is decoded from the bytes of a metainfo file and encoded to
//! them again. Its info hash is computed when it is first asked for, kept,
//! and handed out from then on.

use crate::bencode::error::BertErrorView;
use crate::bencode::value::from_bytes;
use crate::bencode::value::spec_encode_value;
use crate::bencode::value::spec_from_bytes;
use crate::bencode::value::spec_pair_views;
use crate::bencode::value::to_bytes;
use crate::bencode::value::Value;
use crate::bencode::value::ValueView;
use crate::crypto::signature::signatures_value;
use crate::crypto::signature::spec_encode_signatures;
use crate::crypto::signature::spec_signature_models;
use crate::crypto::signature::spec_signatures;
use crate::crypto::signature::Signature;
use crate::crypto::signature::SignatureModel;
use crate::dictionary::check_keys;
use crate::dictionary::opt_dict;
use crate::dictionary::opt_int;
use crate::dictionary::opt_list;
use crate::dictionary::opt_text;
use crate::dictionary::spec_check_keys;
use crate::dictionary::spec_opt_dict;
use crate::dictionary::spec_opt_int;
use crate::dictionary::spec_opt_list;
use crate::dictionary::spec_opt_text;
use crate::dictionary::DecodeOptions;
use crate::error::Field;
use crate::error::ParseTorrentError;
use crate::error::ValueKind;
use crate::files::filedisplayinfo::FileDisplayInfoIter;
use crate::files::filetree::DuplicatePolicy;
use crate::hexadecimal::HexBytes;
use crate::metainfo::encode::bytes_value;
use crate::metainfo::encode::dict_value;
use crate::metainfo::encode::push_field;
use crate::metainfo::encode::spec_encode_info;
use crate::metainfo::encode::spec_field;
use crate::metainfo::encode::spec_opt_field;
use crate::metainfo::encode::text_value;
use crate::metainfo::infohash::spec_info_hash;
use crate::metainfo::infohash::InfoHashAny;
use crate::metainfo::infohash::InfoHashVersioned;
use crate::metainfo::resolve::spec_info_name;
use crate::metainfo::resolve::spec_resolve;
use crate::metainfo::resolve::MetaInfo;
use crate::metainfo::resolve::MetaInfoModel;
use crate::uri::lists::nodes;
use crate::uri::lists::nodes_value;
use crate::uri::lists::opt_uri;
use crate::uri::lists::spec_node_models;
use crate::uri::lists::spec_node_values;
use crate::uri::lists::spec_nodes;
use crate::uri::lists::spec_opt_uri;
use crate::uri::lists::spec_tier_models;
use crate::uri::lists::spec_tier_values;
use crate::uri::lists::spec_tiers;
use crate::uri::lists::spec_uri_models;
use crate::uri::lists::spec_uri_values;
use crate::uri::lists::spec_uris;
use crate::uri::lists::tiers;
use crate::uri::lists::tiers_value;
use crate::uri::lists::uris;
use crate::uri::lists::uris_value;
use crate::uri::node::Node;
use crate::uri::uriwrapper::UriModel;
use crate::uri::uriwrapper::UriWrapper;
use vstd::prelude::*;
use vstd::utf8::encode_utf8;

verus! {

/// The info hash of a torrent once it was computed, and how often it was
/// computed.
#[derive(Debug)]
pub struct InfoHashCache {
    hash: Option<InfoHashAny>,
    computations: usize,
}

/// A torrent.
#[derive(Debug)]
pub struct Torrent {
    announce: Option<UriWrapper>,
    announce_list: Option<Vec<Vec<UriWrapper>>>,
    created_by: Option<String>,
    comment: Option<String>,
    creation_date: Option<u64>,
    encoding: Option<String>,
    httpseeds: Option<Vec<UriWrapper>>,
    info: MetaInfo,
    info_hash_internal: InfoHashCache,
    nodes: Option<Vec<Node>>,
    piece_layers: Option<Vec<(HexBytes, HexBytes)>>,
    publisher_url: Option<UriWrapper>,
    signatures: Option<Vec<(String, Signature)>>,
    url_list: Option<Vec<UriWrapper>>,
}

/// A torrent as contracts see it.
pub struct TorrentModel {
    pub announce: Option<UriModel>,
    pub announce_list: Option<Seq<Seq<UriModel>>>,
    pub created_by: Option<Seq<char>>,
    pub comment: Option<Seq<char>>,
    pub creation_date: Option<u64>,
    pub encoding: Option<Seq<char>>,
    pub httpseeds: Option<Seq<UriModel>>,
    pub info: MetaInfoModel,
    pub nodes: Option<Seq<UriModel>>,
    pub piece_layers: Option<Seq<(Seq<u8>, Seq<u8>)>>,
    pub publisher_url: Option<UriModel>,
    pub signatures: Option<Seq<(Seq<char>, SignatureModel)>>,
    pub url_list: Option<Seq<UriModel>>,
}

/// What contracts see of piece layers.
pub open spec fn spec_layer_models(layers: Seq<(HexBytes, HexBytes)>) -> Seq<(Seq<u8>, Seq<u8>)> {
    Seq::new(layers.len(), |i: int| (layers[i].0@, layers[i].1@))
}

/// The fields that the dictionary of a torrent knows.
pub open spec fn spec_torrent_fields() -> Seq<Field> {
    seq![
        Field::Announce,
        Field::AnnounceList,
        Field::CreatedBy,
        Field::Comment,
        Field::CreationDate,
        Field::Encoding,
        Field::Httpseeds,
        Field::Info,
        Field::Nodes,
        Field::PieceLayers,
        Field::PublisherUrl,
        Field::Signatures,
        Field::UrlList,
    ]
}

/// The tiers of trackers of the field `announce-list`, if the field is
/// there.
pub open spec fn spec_opt_tiers(dict: Seq<(Seq<u8>, ValueView)>) -> Result<
    Option<Seq<Seq<UriModel>>>,
    ParseTorrentError,
> {
    match spec_opt_list(dict, Field::AnnounceList) {
        Err(e) => Err(e),
        Ok(None) => Ok(None),
        Ok(Some(items)) => match spec_tiers(items, 0) {
            Err(e) => Err(e),
            Ok(t) => Ok(Some(t)),
        },
    }
}

/// The URIs of the list in a field that need not be there.
pub open spec fn spec_opt_uris(dict: Seq<(Seq<u8>, ValueView)>, field: Field) -> Result<
    Option<Seq<UriModel>>,
    ParseTorrentError,
> {
    match spec_opt_list(dict, field) {
        Err(e) => Err(e),
        Ok(None) => Ok(None),
        Ok(Some(items)) => match spec_uris(items, 0, field) {
            Err(e) => Err(e),
            Ok(t) => Ok(Some(t)),
        },
    }
}

/// The nodes of the field `nodes`, if the field is there.
pub open spec fn spec_opt_nodes(dict: Seq<(Seq<u8>, ValueView)>) -> Result<
    Option<Seq<UriModel>>,
    ParseTorrentError,
> {
    match spec_opt_list(dict, Field::Nodes) {
        Err(e) => Err(e),
        Ok(None) => Ok(None),
        Ok(Some(items)) => match spec_nodes(items, 0) {
            Err(e) => Err(e),
            Ok(t) => Ok(Some(t)),
        },
    }
}

/// The date of the field `creation date`, if the field is there: an integer
/// that is not below zero.
pub open spec fn spec_opt_date(dict: Seq<(Seq<u8>, ValueView)>) -> Result<
    Option<u64>,
    ParseTorrentError,
> {
    match spec_opt_int(dict, Field::CreationDate) {
        Err(e) => Err(e),
        Ok(None) => Ok(None),
        Ok(Some(n)) => if n < 0 {
            Err(ParseTorrentError::InvalidValue { field: Field::CreationDate })
        } else {
            Ok(Some(n as u64))
        },
    }
}

/// The piece layers that the entries of a dictionary are, from the place
/// `from` on: each value must be a byte string.
pub open spec fn spec_layers(pairs: Seq<(Seq<u8>, ValueView)>, from: int) -> Result<
    Seq<(Seq<u8>, Seq<u8>)>,
    ParseTorrentError,
>
    decreases pairs.len() - from,
{
    if from < 0 || from >= pairs.len() {
        Ok(Seq::empty())
    } else {
        match pairs[from].1 {
            ValueView::Bytes(layer) => match spec_layers(pairs, from + 1) {
                Err(e) => Err(e),
                Ok(more) => Ok(seq![(pairs[from].0, layer)] + more),
            },
            _ => Err(
                ParseTorrentError::InvalidType {
                    field: Field::PieceLayers,
                    expected: ValueKind::Bytes,
                },
            ),
        }
    }
}

/// The piece layers of the field `piece layers`, if the field is there.
pub open spec fn spec_opt_layers(dict: Seq<(Seq<u8>, ValueView)>) -> Result<
    Option<Seq<(Seq<u8>, Seq<u8>)>>,
    ParseTorrentError,
> {
    match spec_opt_dict(dict, Field::PieceLayers) {
        Err(e) => Err(e),
        Ok(None) => Ok(None),
        Ok(Some(pairs)) => match spec_layers(pairs, 0) {
            Err(e) => Err(e),
            Ok(t) => Ok(Some(t)),
        },
    }
}

/// The signatures of the field `signatures`, if the field is there.
pub open spec fn spec_opt_signatures(dict: Seq<(Seq<u8>, ValueView)>, strict: bool) -> Result<
    Option<Seq<(Seq<char>, SignatureModel)>>,
    ParseTorrentError,
> {
    match spec_opt_dict(dict, Field::Signatures) {
        Err(e) => Err(e),
        Ok(None) => Ok(None),
        Ok(Some(pairs)) => match spec_signatures(pairs, 0, strict) {
            Err(e) => Err(e),
            Ok(t) => Ok(Some(t)),
        },
    }
}

/// The info dictionary of the field `info`, which must be there.
pub open spec fn spec_req_info(dict: Seq<(Seq<u8>, ValueView)>, options: DecodeOptions) -> Result<
    MetaInfoModel,
    ParseTorrentError,
> {
    match spec_opt_dict(dict, Field::Info) {
        Err(e) => Err(e),
        Ok(None) => Err(ParseTorrentError::MissingField(Field::Info)),
        Ok(Some(info)) => spec_resolve(info, options),
    }
}

/// What a dictionary is as a torrent. The fields are read in the order of
/// their keys, and the first that is wrong is reported; `info` must be
/// there. A strict reading then refuses a key that the dictionary of a
/// torrent does not know.
pub open spec fn spec_decode_torrent(dict: Seq<(Seq<u8>, ValueView)>, options: DecodeOptions) -> Result<
    TorrentModel,
    ParseTorrentError,
> {
    match spec_opt_uri(dict, Field::Announce) {
        Err(e) => Err(e),
        Ok(announce) => match spec_opt_tiers(dict) {
            Err(e) => Err(e),
            Ok(announce_list) => match spec_opt_text(dict, Field::CreatedBy) {
                Err(e) => Err(e),
                Ok(created_by) => match spec_opt_text(dict, Field::Comment) {
                    Err(e) => Err(e),
                    Ok(comment) => match spec_opt_date(dict) {
                        Err(e) => Err(e),
                        Ok(creation_date) => match spec_opt_text(dict, Field::Encoding) {
                            Err(e) => Err(e),
                            Ok(encoding) => match spec_opt_uris(dict, Field::Httpseeds) {
                                Err(e) => Err(e),
                                Ok(httpseeds) => match spec_req_info(dict, options) {
                                    Err(e) => Err(e),
                                    Ok(info) => spec_decode_torrent_tail(
                                        dict,
                                        options,
                                        TorrentModel {
                                            announce,
                                            announce_list,
                                            created_by,
                                            comment,
                                            creation_date,
                                            encoding,
                                            httpseeds,
                                            info,
                                            nodes: None,
                                            piece_layers: None,
                                            publisher_url: None,
                                            signatures: None,
                                            url_list: None,
                                        },
                                    ),
                                },
                            },
                        },
                    },
                },
            },
        },
    }
}

/// The fields of a torrent from `nodes` on, added to the fields before
/// them.
pub open spec fn spec_decode_torrent_tail(
    dict: Seq<(Seq<u8>, ValueView)>,
    options: DecodeOptions,
    head: TorrentModel,
) -> Result<TorrentModel, ParseTorrentError> {
    match spec_opt_nodes(dict) {
        Err(e) => Err(e),
        Ok(nodes) => match spec_opt_layers(dict) {
            Err(e) => Err(e),
            Ok(piece_layers) => match spec_opt_uri(dict, Field::PublisherUrl) {
                Err(e) => Err(e),
                Ok(publisher_url) => match spec_opt_signatures(dict, options.strict) {
                    Err(e) => Err(e),
                    Ok(signatures) => match spec_opt_uris(dict, Field::UrlList) {
                        Err(e) => Err(e),
                        Ok(url_list) => match spec_check_keys(
                            dict,
                            spec_torrent_fields(),
                            Field::Torrent,
                            options.strict,
                        ) {
                            Some(e) => Err(e),
                            None => Ok(
                                TorrentModel {
                                    announce: head.announce,
                                    announce_list: head.announce_list,
                                    created_by: head.created_by,
                                    comment: head.comment,
                                    creation_date: head.creation_date,
                                    encoding: head.encoding,
                                    httpseeds: head.httpseeds,
                                    info: head.info,
                                    nodes,
                                    piece_layers,
                                    publisher_url,
                                    signatures,
                                    url_list,
                                },
                            ),
                        },
                    },
                },
            },
        },
    }
}

/// What is read with `front` put before it.
pub open spec fn spec_layers_after(
    front: Seq<(Seq<u8>, Seq<u8>)>,
    r: Result<Seq<(Seq<u8>, Seq<u8>)>, ParseTorrentError>,
) -> Result<Seq<(Seq<u8>, Seq<u8>)>, ParseTorrentError> {
    match r {
        Ok(more) => Ok(front + more),
        Err(e) => Err(e),
    }
}

/// The fields that the dictionary of a torrent knows.
pub fn torrent_fields() -> (r: Vec<Field>)
    ensures
        r@ == spec_torrent_fields(),
{
    let mut known: Vec<Field> = Vec::new();
    known.push(Field::Announce);
    known.push(Field::AnnounceList);
    known.push(Field::CreatedBy);
    known.push(Field::Comment);
    known.push(Field::CreationDate);
    known.push(Field::Encoding);
    known.push(Field::Httpseeds);
    known.push(Field::Info);
    known.push(Field::Nodes);
    known.push(Field::PieceLayers);
    known.push(Field::PublisherUrl);
    known.push(Field::Signatures);
    known.push(Field::UrlList);
    assert(known@ =~= spec_torrent_fields());
    known
}

/// The URIs of the list in a field that need not be there.
pub fn opt_uris(pairs: &Vec<(Vec<u8>, Value)>, field: Field) -> (r: Result<
    Option<Vec<UriWrapper>>,
    ParseTorrentError,
>)
    ensures
        match spec_opt_uris(spec_pair_views(pairs@), field) {
            Ok(Some(t)) => r matches Ok(Some(found)) && spec_uri_models(found@) == t,
            Ok(None) => r matches Ok(None),
            Err(e) => r matches Err(f) && f == e,
        },
{
    match opt_list(pairs, field) {
        Err(e) => Err(e),
        Ok(None) => Ok(None),
        Ok(Some(i)) => match pairs[i].1.as_list() {
            None => Ok(None),
            Some(items) => match uris(items, field) {
                Err(e) => Err(e),
                Ok(t) => Ok(Some(t)),
            },
        },
    }
}

/// The tiers of trackers of the field `announce-list`, if the field is
/// there.
pub fn opt_tiers(pairs: &Vec<(Vec<u8>, Value)>) -> (r: Result<
    Option<Vec<Vec<UriWrapper>>>,
    ParseTorrentError,
>)
    ensures
        match spec_opt_tiers(spec_pair_views(pairs@)) {
            Ok(Some(t)) => r matches Ok(Some(found)) && spec_tier_models(found@) == t,
            Ok(None) => r matches Ok(None),
            Err(e) => r matches Err(f) && f == e,
        },
{
    match opt_list(pairs, Field::AnnounceList) {
        Err(e) => Err(e),
        Ok(None) => Ok(None),
        Ok(Some(i)) => match pairs[i].1.as_list() {
            None => Ok(None),
            Some(items) => match tiers(items) {
                Err(e) => Err(e),
                Ok(t) => Ok(Some(t)),
            },
        },
    }
}

/// The nodes of the field `nodes`, if the field is there.
pub fn opt_nodes(pairs: &Vec<(Vec<u8>, Value)>) -> (r: Result<Option<Vec<Node>>, ParseTorrentError>)
    ensures
        match spec_opt_nodes(spec_pair_views(pairs@)) {
            Ok(Some(t)) => r matches Ok(Some(found)) && spec_node_models(found@) == t,
            Ok(None) => r matches Ok(None),
            Err(e) => r matches Err(f) && f == e,
        },
{
    match opt_list(pairs, Field::Nodes) {
        Err(e) => Err(e),
        Ok(None) => Ok(None),
        Ok(Some(i)) => match pairs[i].1.as_list() {
            None => Ok(None),
            Some(items) => match nodes(items) {
                Err(e) => Err(e),
                Ok(t) => Ok(Some(t)),
            },
        },
    }
}

/// The date of the field `creation date`, if the field is there.
pub fn opt_date(pairs: &Vec<(Vec<u8>, Value)>) -> (r: Result<Option<u64>, ParseTorrentError>)
    ensures
        r == spec_opt_date(spec_pair_views(pairs@)),
{
    match opt_int(pairs, Field::CreationDate) {
        Err(e) => Err(e),
        Ok(None) => Ok(None),
        Ok(Some(n)) => {
            if n < 0 {
                Err(ParseTorrentError::InvalidValue { field: Field::CreationDate })
            } else {
                Ok(Some(n as u64))
            }
        },
    }
}

/// The piece layers that the entries of a dictionary are.
pub fn layers(pairs: &Vec<(Vec<u8>, Value)>) -> (r: Result<
    Vec<(HexBytes, HexBytes)>,
    ParseTorrentError,
>)
    ensures
        match spec_layers(spec_pair_views(pairs@), 0) {
            Ok(models) => r matches Ok(found) && spec_layer_models(found@) == models,
            Err(e) => r matches Err(f) && f == e,
        },
{
    let ghost views = spec_pair_views(pairs@);
    let mut out: Vec<(HexBytes, HexBytes)> = Vec::new();
    let mut i: usize = 0;
    proof {
        match spec_layers(views, 0) {
            Ok(t) => {
                assert(spec_layer_models(out@) + t =~= t);
            },
            Err(_) => {},
        }
    }
    while i < pairs.len()
        invariant
            i <= pairs@.len(),
            views == spec_pair_views(pairs@),
            spec_layers(views, 0) == spec_layers_after(
                spec_layer_models(out@),
                spec_layers(views, i as int),
            ),
        decreases pairs@.len() - i,
    {
        assert(views[i as int] == (pairs@[i as int].0@, pairs@[i as int].1@));
        let layer = match pairs[i].1.as_bytes() {
            Some(b) => b,
            None => {
                return Err(
                    ParseTorrentError::InvalidType {
                        field: Field::PieceLayers,
                        expected: ValueKind::Bytes,
                    },
                );
            },
        };
        let one = (
            HexBytes::new(pairs[i].0.clone()),
            HexBytes::new(vstd::slice::slice_to_vec(layer)),
        );
        proof {
            let before = spec_layer_models(out@);
            assert(spec_layer_models(out@.push(one)) =~= before + seq![(one.0@, one.1@)]);
            match spec_layers(views, i + 1) {
                Ok(more) => {
                    assert((before + seq![(one.0@, one.1@)]) + more =~= before + (seq![
                        (one.0@, one.1@),
                    ] + more));
                },
                Err(_) => {},
            }
        }
        out.push(one);
        i += 1;
    }
    proof {
        assert(spec_layer_models(out@) + Seq::<(Seq<u8>, Seq<u8>)>::empty() =~= spec_layer_models(
            out@,
        ));
    }
    Ok(out)
}

/// The piece layers of the field `piece layers`, if the field is there.
pub fn opt_layers(pairs: &Vec<(Vec<u8>, Value)>) -> (r: Result<
    Option<Vec<(HexBytes, HexBytes)>>,
    ParseTorrentError,
>)
    ensures
        match spec_opt_layers(spec_pair_views(pairs@)) {
            Ok(Some(t)) => r matches Ok(Some(found)) && spec_layer_models(found@) == t,
            Ok(None) => r matches Ok(None),
            Err(e) => r matches Err(f) && f == e,
        },
{
    match opt_dict(pairs, Field::PieceLayers) {
        Err(e) => Err(e),
        Ok(None) => Ok(None),
        Ok(Some(i)) => match pairs[i].1.as_dict() {
            None => Ok(None),
            Some(inner) => match layers(inner) {
                Err(e) => Err(e),
                Ok(t) => Ok(Some(t)),
            },
        },
    }
}

/// The signatures of the field `signatures`, if the field is there.
pub fn opt_signatures(pairs: &Vec<(Vec<u8>, Value)>, strict: bool) -> (r: Result<
    Option<Vec<(String, Signature)>>,
    ParseTorrentError,
>)
    ensures
        match spec_opt_signatures(spec_pair_views(pairs@), strict) {
            Ok(Some(t)) => r matches Ok(Some(found)) && spec_signature_models(found@) == t,
            Ok(None) => r matches Ok(None),
            Err(e) => r matches Err(f) && f == e,
        },
{
    match opt_dict(pairs, Field::Signatures) {
        Err(e) => Err(e),
        Ok(None) => Ok(None),
        Ok(Some(i)) => match pairs[i].1.as_dict() {
            None => Ok(None),
            Some(inner) => match Signature::deserialize_all(inner, strict) {
                Err(e) => Err(e),
                Ok(t) => Ok(Some(t)),
            },
        },
    }
}

/// The info dictionary of the field `info`, which must be there.
pub fn req_info(pairs: &Vec<(Vec<u8>, Value)>, options: DecodeOptions) -> (r: Result<
    MetaInfo,
    ParseTorrentError,
>)
    ensures
        match spec_req_info(spec_pair_views(pairs@), options) {
            Ok(model) => r matches Ok(found) && found.model() == model,
            Err(e) => r matches Err(f) && f == e,
        },
{
    match opt_dict(pairs, Field::Info) {
        Err(e) => Err(e),
        Ok(None) => Err(ParseTorrentError::MissingField(Field::Info)),
        Ok(Some(i)) => match pairs[i].1.as_dict() {
            None => Err(ParseTorrentError::MissingField(Field::Info)),
            Some(inner) => MetaInfo::deserialize(inner, options),
        },
    }
}

/// The options with which a torrent is read where none are given: keys
/// that are not known are let through, and a name that stands twice in a
/// file tree is refused.
pub open spec fn spec_default_options() -> DecodeOptions {
    DecodeOptions { strict: false, duplicates: DuplicatePolicy::Reject }
}

/// The options with which a torrent is read where none are given.
pub fn default_options() -> (r: DecodeOptions)
    ensures
        r == spec_default_options(),
{
    DecodeOptions { strict: false, duplicates: DuplicatePolicy::Reject }
}

/// What bytes are as a torrent: they must be the Bencode of one value and
/// nothing more, the value must be a dictionary, and the dictionary a
/// torrent. Where the bytes are no Bencode the result is the trail of the
/// codec.
pub open spec fn spec_decode(bytes: Seq<u8>, options: DecodeOptions) -> Result<
    TorrentModel,
    Result<Seq<BertErrorView>, ParseTorrentError>,
> {
    match spec_from_bytes(bytes) {
        Err(trail) => Err(Ok(trail)),
        Ok(ValueView::Dict(dict)) => match spec_decode_torrent(dict, options) {
            Ok(model) => Ok(model),
            Err(e) => Err(Err(e)),
        },
        Ok(_) => Err(
            Err(ParseTorrentError::InvalidType { field: Field::Torrent, expected: ValueKind::Dict }),
        ),
    }
}

/// The value of a URI that need not be there.
pub open spec fn spec_opt_uri_value(uri: Option<UriModel>) -> Option<ValueView> {
    match uri {
        Some(u) => Some(ValueView::Bytes(encode_utf8(u.display))),
        None => None,
    }
}

/// The value of a text that need not be there.
pub open spec fn spec_opt_text_value(text: Option<Seq<char>>) -> Option<ValueView> {
    match text {
        Some(t) => Some(ValueView::Bytes(encode_utf8(t))),
        None => None,
    }
}

/// The value of URIs that need not be there.
pub open spec fn spec_opt_uris_value(uris: Option<Seq<UriModel>>) -> Option<ValueView> {
    match uris {
        Some(u) => Some(ValueView::List(spec_uri_values(u))),
        None => None,
    }
}

/// The dictionary of piece layers.
pub open spec fn spec_encode_layers(layers: Seq<(Seq<u8>, Seq<u8>)>) -> Seq<(Seq<u8>, ValueView)> {
    Seq::new(layers.len(), |i: int| (layers[i].0, ValueView::Bytes(layers[i].1)))
}

/// The first fields of the dictionary of a torrent, up to `info`.
pub open spec fn spec_encode_torrent_head(model: TorrentModel) -> Seq<(Seq<u8>, ValueView)> {
    spec_opt_field(Field::Announce, spec_opt_uri_value(model.announce)) + spec_opt_field(
        Field::AnnounceList,
        match model.announce_list {
            Some(t) => Some(ValueView::List(spec_tier_values(t))),
            None => None,
        },
    ) + spec_opt_field(Field::Comment, spec_opt_text_value(model.comment)) + spec_opt_field(
        Field::CreatedBy,
        spec_opt_text_value(model.created_by),
    ) + spec_opt_field(
        Field::CreationDate,
        match model.creation_date {
            Some(d) => Some(ValueView::Int(d as i64)),
            None => None,
        },
    ) + spec_opt_field(Field::Encoding, spec_opt_text_value(model.encoding)) + spec_opt_field(
        Field::Httpseeds,
        spec_opt_uris_value(model.httpseeds),
    ) + spec_field(Field::Info, ValueView::Dict(spec_encode_info(model.info)))
}

/// The dictionary of a torrent, with its keys in ascending order.
pub open spec fn spec_encode_torrent(model: TorrentModel) -> Seq<(Seq<u8>, ValueView)> {
    spec_encode_torrent_head(model) + spec_opt_field(
        Field::Nodes,
        match model.nodes {
            Some(n) => Some(ValueView::List(spec_node_values(n))),
            None => None,
        },
    ) + spec_opt_field(
        Field::PieceLayers,
        match model.piece_layers {
            Some(l) => Some(ValueView::Dict(spec_encode_layers(l))),
            None => None,
        },
    ) + spec_opt_field(Field::PublisherUrl, spec_opt_uri_value(model.publisher_url))
        + spec_opt_field(
        Field::Signatures,
        match model.signatures {
            Some(s) => Some(ValueView::Dict(spec_encode_signatures(s))),
            None => None,
        },
    ) + spec_opt_field(Field::UrlList, spec_opt_uris_value(model.url_list))
}

/// The bytes of a torrent.
pub open spec fn spec_encode(model: TorrentModel) -> Seq<u8> {
    spec_encode_value(ValueView::Dict(spec_encode_torrent(model)))
}

/// Piece layers as a value.
pub fn layers_value(layers: &Vec<(HexBytes, HexBytes)>) -> (r: Value)
    ensures
        r@ == ValueView::Dict(spec_encode_layers(spec_layer_models(layers@))),
{
    let mut pairs: Vec<(Vec<u8>, Value)> = Vec::new();
    let mut i: usize = 0;
    while i < layers.len()
        invariant
            i <= layers@.len(),
            pairs@.len() == i,
            forall|k: int|
                0 <= k < i ==> (#[trigger] pairs@[k]).0@ == layers@[k].0@ && pairs@[k].1@
                    == ValueView::Bytes(layers@[k].1@),
        decreases layers@.len() - i,
    {
        pairs.push((layers[i].0.iter(), bytes_value(layers[i].1.as_slice())));
        i += 1;
    }
    assert(spec_pair_views(pairs@) =~= spec_encode_layers(spec_layer_models(layers@)));
    dict_value(pairs)
}

/// Put a URI behind the fields of a dictionary, where it is there.
pub fn push_opt_uri(pairs: &mut Vec<(Vec<u8>, Value)>, field: Field, uri: &Option<UriWrapper>)
    ensures
        spec_pair_views(final(pairs)@) == spec_pair_views(old(pairs)@) + spec_opt_field(
            field,
            spec_opt_uri_value(
                match *uri {
                    Some(u) => Some(u@),
                    None => None,
                },
            ),
        ),
{
    match uri {
        Some(u) => {
            push_field(pairs, field, text_value(u.as_str()));
        },
        None => {
            assert(spec_pair_views(pairs@) + Seq::<(Seq<u8>, ValueView)>::empty()
                =~= spec_pair_views(pairs@));
        },
    }
}

/// Put a text behind the fields of a dictionary, where it is there.
pub fn push_opt_text(pairs: &mut Vec<(Vec<u8>, Value)>, field: Field, text: &Option<String>)
    ensures
        spec_pair_views(final(pairs)@) == spec_pair_views(old(pairs)@) + spec_opt_field(
            field,
            spec_opt_text_value(
                match *text {
                    Some(t) => Some(t@),
                    None => None,
                },
            ),
        ),
{
    match text {
        Some(t) => {
            push_field(pairs, field, text_value(t.as_str()));
        },
        None => {
            assert(spec_pair_views(pairs@) + Seq::<(Seq<u8>, ValueView)>::empty()
                =~= spec_pair_views(pairs@));
        },
    }
}

/// Put URIs behind the fields of a dictionary, where they are there.
pub fn push_opt_uris(pairs: &mut Vec<(Vec<u8>, Value)>, field: Field, uris: &Option<Vec<UriWrapper>>)
    ensures
        spec_pair_views(final(pairs)@) == spec_pair_views(old(pairs)@) + spec_opt_field(
            field,
            spec_opt_uris_value(
                match *uris {
                    Some(u) => Some(spec_uri_models(u@)),
                    None => None,
                },
            ),
        ),
{
    match uris {
        Some(u) => {
            push_field(pairs, field, uris_value(u));
        },
        None => {
            assert(spec_pair_views(pairs@) + Seq::<(Seq<u8>, ValueView)>::empty()
                =~= spec_pair_views(pairs@));
        },
    }
}

impl Torrent {
    #[verifier::type_invariant]
    spec fn wf(&self) -> bool {
        &&& self.info_hash_internal.hash matches Some(hash) ==> {
            &&& hash.spec_sha1() == crate::crypto::calculateinfohash::sha1_of(
                crate::crypto::calculateinfohash::spec_info_bytes(self.info.model()),
            )
            &&& hash.spec_sha2() == crate::crypto::calculateinfohash::sha256_of(
                crate::crypto::calculateinfohash::spec_info_bytes(self.info.model()),
            )
        }
        &&& self.info_hash_internal.computations == (if self.info_hash_internal.hash is Some {
            1usize
        } else {
            0usize
        })
        &&& self.creation_date matches Some(d) ==> d <= i64::MAX
    }

    /// What contracts see of the torrent.
    pub closed spec fn model(&self) -> TorrentModel {
        TorrentModel {
            announce: match self.announce {
                Some(u) => Some(u@),
                None => None,
            },
            announce_list: match self.announce_list {
                Some(t) => Some(spec_tier_models(t@)),
                None => None,
            },
            created_by: match self.created_by {
                Some(t) => Some(t@),
                None => None,
            },
            comment: match self.comment {
                Some(t) => Some(t@),
                None => None,
            },
            creation_date: self.creation_date,
            encoding: match self.encoding {
                Some(t) => Some(t@),
                None => None,
            },
            httpseeds: match self.httpseeds {
                Some(u) => Some(spec_uri_models(u@)),
                None => None,
            },
            info: self.info.model(),
            nodes: match self.nodes {
                Some(n) => Some(spec_node_models(n@)),
                None => None,
            },
            piece_layers: match self.piece_layers {
                Some(l) => Some(spec_layer_models(l@)),
                None => None,
            },
            publisher_url: match self.publisher_url {
                Some(u) => Some(u@),
                None => None,
            },
            signatures: match self.signatures {
                Some(s) => Some(spec_signature_models(s@)),
                None => None,
            },
            url_list: match self.url_list {
                Some(u) => Some(spec_uri_models(u@)),
                None => None,
            },
        }
    }

    /// The info dictionary, as contracts see it.
    pub closed spec fn spec_info(&self) -> MetaInfo {
        self.info
    }

    /// Whether the info hash was computed already.
    pub closed spec fn spec_hashed(&self) -> bool {
        self.info_hash_internal.hash is Some
    }

    /// How often the info hash was computed: never or once.
    pub closed spec fn spec_computations(&self) -> nat {
        self.info_hash_internal.computations as nat
    }

    /// Read a dictionary as a torrent.
    pub fn deserialize(dict: &Vec<(Vec<u8>, Value)>, options: DecodeOptions) -> (r: Result<
        Self,
        ParseTorrentError,
    >)
        ensures
            match spec_decode_torrent(spec_pair_views(dict@), options) {
                Ok(model) => r matches Ok(torrent) && torrent.model() == model
                    && !torrent.spec_hashed() && torrent.spec_computations() == 0,
                Err(e) => r matches Err(f) && f == e,
            },
    {
        let announce = match opt_uri(dict, Field::Announce) {
            Err(e) => {
                return Err(e);
            },
            Ok(v) => v,
        };
        let announce_list = match opt_tiers(dict) {
            Err(e) => {
                return Err(e);
            },
            Ok(v) => v,
        };
        let created_by = match opt_text(dict, Field::CreatedBy) {
            Err(e) => {
                return Err(e);
            },
            Ok(v) => v,
        };
        let comment = match opt_text(dict, Field::Comment) {
            Err(e) => {
                return Err(e);
            },
            Ok(v) => v,
        };
        let creation_date = match opt_date(dict) {
            Err(e) => {
                return Err(e);
            },
            Ok(v) => v,
        };
        let encoding = match opt_text(dict, Field::Encoding) {
            Err(e) => {
                return Err(e);
            },
            Ok(v) => v,
        };
        let httpseeds = match opt_uris(dict, Field::Httpseeds) {
            Err(e) => {
                return Err(e);
            },
            Ok(v) => v,
        };
        let info = match req_info(dict, options) {
            Err(e) => {
                return Err(e);
            },
            Ok(v) => v,
        };
        let nodes = match opt_nodes(dict) {
            Err(e) => {
                return Err(e);
            },
            Ok(v) => v,
        };
        let piece_layers = match opt_layers(dict) {
            Err(e) => {
                return Err(e);
            },
            Ok(v) => v,
        };
        let publisher_url = match opt_uri(dict, Field::PublisherUrl) {
            Err(e) => {
                return Err(e);
            },
            Ok(v) => v,
        };
        let signatures = match opt_signatures(dict, options.strict) {
            Err(e) => {
                return Err(e);
            },
            Ok(v) => v,
        };
        let url_list = match opt_uris(dict, Field::UrlList) {
            Err(e) => {
                return Err(e);
            },
            Ok(v) => v,
        };
        let known = torrent_fields();
        match check_keys(dict, &known, Field::Torrent, options.strict) {
            Err(e) => Err(e),
            Ok(_) => Ok(
                Torrent {
                    announce,
                    announce_list,
                    created_by,
                    comment,
                    creation_date,
                    encoding,
                    httpseeds,
                    info,
                    info_hash_internal: InfoHashCache { hash: None, computations: 0 },
                    nodes,
                    piece_layers,
                    publisher_url,
                    signatures,
                    url_list,
                },
            ),
        }
    }

    /// Decode the bytes of a metainfo file, with the options that are named.
    pub fn decode_with(bytes: &[u8], options: DecodeOptions) -> (r: Result<Self, ParseTorrentError>)
        ensures
            match spec_decode(bytes@, options) {
                Ok(model) => r matches Ok(torrent) && torrent.model() == model
                    && !torrent.spec_hashed() && torrent.spec_computations() == 0,
                Err(Ok(trail)) => r matches Err(ParseTorrentError::Bencode(e)) && e@ == trail,
                Err(Err(e)) => r matches Err(f) && f == e,
            },
    {
        let value = match from_bytes(bytes) {
            Err(trail) => {
                return Err(ParseTorrentError::Bencode(trail));
            },
            Ok(value) => value,
        };
        match value.as_dict() {
            None => Err(
                ParseTorrentError::InvalidType { field: Field::Torrent, expected: ValueKind::Dict },
            ),
            Some(dict) => Self::deserialize(dict, options),
        }
    }

    /// Decode the bytes of a metainfo file.
    pub fn decode(bytes: &[u8]) -> (r: Result<Self, ParseTorrentError>)
        ensures
            match spec_decode(bytes@, spec_default_options()) {
                Ok(model) => r matches Ok(torrent) && torrent.model() == model
                    && !torrent.spec_hashed() && torrent.spec_computations() == 0,
                Err(Ok(trail)) => r matches Err(ParseTorrentError::Bencode(e)) && e@ == trail,
                Err(Err(e)) => r matches Err(f) && f == e,
            },
    {
        Self::decode_with(bytes, default_options())
    }

    /// Decode the bytes of a metainfo file.
    pub fn de_from_bytes(torrent: &[u8]) -> (r: Result<Self, ParseTorrentError>)
        ensures
            match spec_decode(torrent@, spec_default_options()) {
                Ok(model) => r matches Ok(t) && t.model() == model && !t.spec_hashed()
                    && t.spec_computations() == 0,
                Err(Ok(trail)) => r matches Err(ParseTorrentError::Bencode(e)) && e@ == trail,
                Err(Err(e)) => r matches Err(f) && f == e,
            },
    {
        Self::decode(torrent)
    }

    /// Decode the text of a metainfo file.
    pub fn de_from_str(torrent: &str) -> (r: Result<Self, ParseTorrentError>)
        ensures
            match spec_decode(encode_utf8(torrent@), spec_default_options()) {
                Ok(model) => r matches Ok(t) && t.model() == model && !t.spec_hashed()
                    && t.spec_computations() == 0,
                Err(Ok(trail)) => r matches Err(ParseTorrentError::Bencode(e)) && e@ == trail,
                Err(Err(e)) => r matches Err(f) && f == e,
            },
    {
        Self::decode(torrent.as_bytes())
    }

    /// The dictionary of the torrent.
    pub fn serialize(&self) -> (r: Vec<(Vec<u8>, Value)>)
        ensures
            spec_pair_views(r@) == spec_encode_torrent(self.model()),
            crate::keys::spec_keys_ascending(spec_pair_views(r@)),
    {
        proof {
            use_type_invariant(self);
        }
        let mut pairs: Vec<(Vec<u8>, Value)> = Vec::new();
        assert(spec_pair_views(pairs@) =~= Seq::<(Seq<u8>, ValueView)>::empty());
        push_opt_uri(&mut pairs, Field::Announce, &self.announce);
        match &self.announce_list {
            Some(t) => {
                push_field(&mut pairs, Field::AnnounceList, tiers_value(t));
            },
            None => {},
        }
        push_opt_text(&mut pairs, Field::Comment, &self.comment);
        push_opt_text(&mut pairs, Field::CreatedBy, &self.created_by);
        match self.creation_date {
            Some(d) => {
                push_field(&mut pairs, Field::CreationDate, Value::Int(d as i64));
            },
            None => {},
        }
        push_opt_text(&mut pairs, Field::Encoding, &self.encoding);
        push_opt_uris(&mut pairs, Field::Httpseeds, &self.httpseeds);
        push_field(&mut pairs, Field::Info, dict_value(self.info.serialize()));
        assert(spec_pair_views(pairs@) =~= spec_encode_torrent_head(self.model()));
        match &self.nodes {
            Some(n) => {
                push_field(&mut pairs, Field::Nodes, nodes_value(n));
            },
            None => {},
        }
        match &self.piece_layers {
            Some(l) => {
                push_field(&mut pairs, Field::PieceLayers, layers_value(l));
            },
            None => {},
        }
        push_opt_uri(&mut pairs, Field::PublisherUrl, &self.publisher_url);
        match &self.signatures {
            Some(s) => {
                push_field(&mut pairs, Field::Signatures, signatures_value(s));
            },
            None => {},
        }
        push_opt_uris(&mut pairs, Field::UrlList, &self.url_list);
        assert(spec_pair_views(pairs@) =~= spec_encode_torrent(self.model()));
        proof {
            crate::keys::lemma_torrent_keys(self.model());
        }
        pairs
    }

    /// Encode the torrent as the bytes of a metainfo file.
    pub fn encode(&self) -> (r: Vec<u8>)
        ensures
            r@ == spec_encode(self.model()),
    {
        let value = dict_value(self.serialize());
        to_bytes(&value)
    }

    /// Encode the torrent as the bytes of a metainfo file.
    pub fn se_to_bytes(&self) -> (r: Vec<u8>)
        ensures
            r@ == spec_encode(self.model()),
    {
        self.encode()
    }

    /// Encode the torrent as text, where the bytes of its metainfo file are
    /// UTF-8.
    pub fn se_to_string(&self) -> (r: Option<String>)
        ensures
            r is Some <==> vstd::utf8::valid_utf8(spec_encode(self.model())),
            r matches Some(text) ==> encode_utf8(text@) == spec_encode(self.model()),
    {
        let bytes = self.encode();
        match crate::text::str_from_utf8(bytes.as_slice()) {
            Ok(text) => Some(text.to_owned()),
            Err(_) => None,
        }
    }

    /// The name of the torrent.
    pub fn name(&self) -> (r: &str)
        ensures
            r@ == spec_info_name(self.model().info),
    {
        self.info.name()
    }

    /// The info dictionary.
    pub fn info(&self) -> (r: &MetaInfo)
        ensures
            *r == self.spec_info(),
            r.model() == self.model().info,
    {
        &self.info
    }

    /// The URI of the tracker.
    pub fn announce(&self) -> (r: &Option<UriWrapper>)
        ensures
            self.model().announce == match *r {
                Some(u) => Some(u@),
                None => None,
            },
    {
        &self.announce
    }

    /// The tiers of trackers.
    pub fn announce_list(&self) -> (r: &Option<Vec<Vec<UriWrapper>>>)
        ensures
            self.model().announce_list == match *r {
                Some(t) => Some(spec_tier_models(t@)),
                None => None,
            },
    {
        &self.announce_list
    }

    /// The program that made the torrent.
    pub fn created_by(&self) -> (r: &Option<String>)
        ensures
            self.model().created_by == match *r {
                Some(t) => Some(t@),
                None => None,
            },
    {
        &self.created_by
    }

    /// The comment.
    pub fn comment(&self) -> (r: &Option<String>)
        ensures
            self.model().comment == match *r {
                Some(t) => Some(t@),
                None => None,
            },
    {
        &self.comment
    }

    /// The time at which the torrent was made, in seconds since 1970.
    pub fn creation_date(&self) -> (r: Option<u64>)
        ensures
            r == self.model().creation_date,
    {
        self.creation_date
    }

    /// The encoding of the texts of the torrent.
    pub fn encoding(&self) -> (r: &Option<String>)
        ensures
            self.model().encoding == match *r {
                Some(t) => Some(t@),
                None => None,
            },
    {
        &self.encoding
    }

    /// The seeds that serve the files over HTTP.
    pub fn httpseeds(&self) -> (r: &Option<Vec<UriWrapper>>)
        ensures
            self.model().httpseeds == match *r {
                Some(u) => Some(spec_uri_models(u@)),
                None => None,
            },
    {
        &self.httpseeds
    }

    /// The nodes of the distributed hash table.
    pub fn nodes(&self) -> (r: &Option<Vec<Node>>)
        ensures
            self.model().nodes == match *r {
                Some(n) => Some(spec_node_models(n@)),
                None => None,
            },
    {
        &self.nodes
    }

    /// The piece layers, in the order in which they were read.
    pub fn piece_layers(&self) -> (r: &Option<Vec<(HexBytes, HexBytes)>>)
        ensures
            self.model().piece_layers == match *r {
                Some(l) => Some(spec_layer_models(l@)),
                None => None,
            },
    {
        &self.piece_layers
    }

    /// The URI of the publisher.
    pub fn publisher_url(&self) -> (r: &Option<UriWrapper>)
        ensures
            self.model().publisher_url == match *r {
                Some(u) => Some(u@),
                None => None,
            },
    {
        &self.publisher_url
    }

    /// The signatures, each with the name of its signer.
    pub fn signatures(&self) -> (r: &Option<Vec<(String, Signature)>>)
        ensures
            self.model().signatures == match *r {
                Some(s) => Some(spec_signature_models(s@)),
                None => None,
            },
    {
        &self.signatures
    }

    /// The URIs from which the files can be fetched.
    pub fn url_list(&self) -> (r: &Option<Vec<UriWrapper>>)
        ensures
            self.model().url_list == match *r {
                Some(u) => Some(spec_uri_models(u@)),
                None => None,
            },
    {
        &self.url_list
    }

    /// A walk over the files of the torrent.
    pub fn iter_files(&self) -> (r: FileDisplayInfoIter<'_>)
        ensures
            r.remaining() == self.spec_info().spec_files(),
    {
        self.info.iter_files()
    }

    /// The info hash of the torrent. It is computed at the first call and
    /// kept; every later call hands out what was kept and computes nothing.
    pub fn info_hash(&mut self) -> (r: InfoHashVersioned<'_>)
        ensures
            r@ == spec_info_hash(old(self).model().info),
            final(self).model() == old(self).model(),
            final(self).spec_hashed(),
            final(self).spec_computations() == 1,
            old(self).spec_hashed() ==> final(self).spec_computations() == old(
                self,
            ).spec_computations(),
    {
        proof {
            use_type_invariant(&*self);
        }
        if self.info_hash_internal.hash.is_none() {
            let hash = InfoHashAny::calculate_infohash(&self.info);
            let computations: usize = self.info_hash_internal.computations + 1;
            self.info_hash_internal = InfoHashCache { hash: Some(hash), computations };
        }
        self.cached_info_hash()
    }

    /// The info hash that was kept, where it was computed already.
    pub fn info_hash_computed(&self) -> (r: Option<InfoHashVersioned<'_>>)
        ensures
            r is Some <==> self.spec_hashed(),
            r matches Some(hash) ==> hash@ == spec_info_hash(self.model().info),
    {
        if self.info_hash_internal.hash.is_some() {
            Some(self.cached_info_hash())
        } else {
            None
        }
    }

    /// How often the info hash was computed: never or once.
    pub fn info_hash_computations(&self) -> (r: usize)
        ensures
            r == self.spec_computations(),
            r == (if self.spec_hashed() {
                1usize
            } else {
                0usize
            }),
    {
        proof {
            use_type_invariant(self);
        }
        self.info_hash_internal.computations
    }

    fn cached_info_hash(&self) -> (r: InfoHashVersioned<'_>)
        requires
            self.spec_hashed(),
        ensures
            r@ == spec_info_hash(self.model().info),
    {
        proof {
            use_type_invariant(self);
        }
        match &self.info_hash_internal.hash {
            Some(hash) => match &self.info {
                MetaInfo::MetaV1(_) => InfoHashVersioned::V1(hash.sha1()),
                MetaInfo::MetaV2(_) => InfoHashVersioned::V2(hash.sha2()),
                MetaInfo::Hybrid(_) => InfoHashVersioned::Hybrid {
                    sha1: hash.sha1(),
                    sha2: hash.sha2(),
                },
            },
            None => vstd::pervasive::unreached(),
        }
    }
}

} // verus!
