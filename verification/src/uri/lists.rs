//! The URIs and nodes of a torrent on the wire, one and many.

use crate::bencode::value::spec_pair_views;
use crate::bencode::value::spec_views;
use crate::bencode::value::Value;
use crate::bencode::value::ValueView;
use crate::dictionary::opt_bytes;
use crate::dictionary::spec_opt_bytes;
use crate::error::Field;
use crate::error::ParseTorrentError;
use crate::error::ValueKind;
use crate::metainfo::encode::list_value;
use crate::metainfo::encode::text_value;
use crate::uri::node::spec_decode_node_value;
use crate::uri::node::spec_node_host;
use crate::uri::node::Node;
use crate::uri::uriwrapper::spec_validate_uri;
use crate::uri::uriwrapper::UriModel;
use crate::uri::uriwrapper::UriWrapper;
use vstd::prelude::*;
use vstd::utf8::encode_utf8;

verus! {

/// What bytes are as the URI of a field.
pub open spec fn spec_uri(bytes: Seq<u8>, field: Field) -> Result<UriModel, ParseTorrentError> {
    match spec_validate_uri(bytes) {
        Ok(model) => Ok(model),
        Err(e) => Err(ParseTorrentError::Uri { field, error: e }),
    }
}

/// The URI of a field that need not be there.
pub open spec fn spec_opt_uri(dict: Seq<(Seq<u8>, ValueView)>, field: Field) -> Result<
    Option<UriModel>,
    ParseTorrentError,
> {
    match spec_opt_bytes(dict, field) {
        Err(e) => Err(e),
        Ok(None) => Ok(None),
        Ok(Some(b)) => match spec_uri(b, field) {
            Err(e) => Err(e),
            Ok(model) => Ok(Some(model)),
        },
    }
}

/// The URIs that the values of a list are, from the place `from` on.
pub open spec fn spec_uris(items: Seq<ValueView>, from: int, field: Field) -> Result<
    Seq<UriModel>,
    ParseTorrentError,
>
    decreases items.len() - from,
{
    if from < 0 || from >= items.len() {
        Ok(Seq::empty())
    } else {
        match items[from] {
            ValueView::Bytes(b) => match spec_uri(b, field) {
                Err(e) => Err(e),
                Ok(first) => match spec_uris(items, from + 1, field) {
                    Err(e) => Err(e),
                    Ok(more) => Ok(seq![first] + more),
                },
            },
            _ => Err(ParseTorrentError::InvalidType { field, expected: ValueKind::Bytes }),
        }
    }
}

/// The tiers of trackers that the values of a list are, from the place
/// `from` on: each value is a list of URIs.
pub open spec fn spec_tiers(items: Seq<ValueView>, from: int) -> Result<
    Seq<Seq<UriModel>>,
    ParseTorrentError,
>
    decreases items.len() - from,
{
    if from < 0 || from >= items.len() {
        Ok(Seq::empty())
    } else {
        match items[from] {
            ValueView::List(tier) => match spec_uris(tier, 0, Field::AnnounceList) {
                Err(e) => Err(e),
                Ok(first) => match spec_tiers(items, from + 1) {
                    Err(e) => Err(e),
                    Ok(more) => Ok(seq![first] + more),
                },
            },
            _ => Err(
                ParseTorrentError::InvalidType {
                    field: Field::AnnounceList,
                    expected: ValueKind::List,
                },
            ),
        }
    }
}

/// The nodes that the values of a list are, from the place `from` on.
pub open spec fn spec_nodes(items: Seq<ValueView>, from: int) -> Result<
    Seq<UriModel>,
    ParseTorrentError,
>
    decreases items.len() - from,
{
    if from < 0 || from >= items.len() {
        Ok(Seq::empty())
    } else {
        match spec_decode_node_value(items[from]) {
            Err(e) => Err(e),
            Ok(first) => match spec_nodes(items, from + 1) {
                Err(e) => Err(e),
                Ok(more) => Ok(seq![first] + more),
            },
        }
    }
}

/// What contracts see of a list of URIs.
pub open spec fn spec_uri_models(uris: Seq<UriWrapper>) -> Seq<UriModel> {
    Seq::new(uris.len(), |i: int| uris[i]@)
}

/// What contracts see of tiers of trackers.
pub open spec fn spec_tier_models(tiers: Seq<Vec<UriWrapper>>) -> Seq<Seq<UriModel>> {
    Seq::new(tiers.len(), |i: int| spec_uri_models(tiers[i]@))
}

/// What contracts see of a list of nodes.
pub open spec fn spec_node_models(nodes: Seq<Node>) -> Seq<UriModel> {
    Seq::new(nodes.len(), |i: int| nodes[i]@)
}

/// What is read with `front` put before it.
pub open spec fn spec_uris_after(
    front: Seq<UriModel>,
    r: Result<Seq<UriModel>, ParseTorrentError>,
) -> Result<Seq<UriModel>, ParseTorrentError> {
    match r {
        Ok(more) => Ok(front + more),
        Err(e) => Err(e),
    }
}

/// What is read with `front` put before it.
pub open spec fn spec_tiers_after(
    front: Seq<Seq<UriModel>>,
    r: Result<Seq<Seq<UriModel>>, ParseTorrentError>,
) -> Result<Seq<Seq<UriModel>>, ParseTorrentError> {
    match r {
        Ok(more) => Ok(front + more),
        Err(e) => Err(e),
    }
}

/// Take bytes as the URI of a field.
pub fn uri(bytes: &[u8], field: Field) -> (r: Result<UriWrapper, ParseTorrentError>)
    ensures
        match spec_uri(bytes@, field) {
            Ok(model) => r matches Ok(found) && found@ == model,
            Err(e) => r matches Err(f) && f == e,
        },
{
    match UriWrapper::from_bytes(bytes) {
        Ok(found) => Ok(found),
        Err(e) => Err(ParseTorrentError::Uri { field, error: e }),
    }
}

/// The URI of a field that need not be there.
pub fn opt_uri(pairs: &Vec<(Vec<u8>, Value)>, field: Field) -> (r: Result<
    Option<UriWrapper>,
    ParseTorrentError,
>)
    ensures
        match spec_opt_uri(spec_pair_views(pairs@), field) {
            Ok(Some(model)) => r matches Ok(Some(found)) && found@ == model,
            Ok(None) => r matches Ok(None),
            Err(e) => r matches Err(f) && f == e,
        },
{
    match opt_bytes(pairs, field) {
        Err(e) => Err(e),
        Ok(None) => Ok(None),
        Ok(Some(b)) => match uri(b, field) {
            Err(e) => Err(e),
            Ok(found) => Ok(Some(found)),
        },
    }
}

/// The URIs that the values of a list are.
pub fn uris(items: &Vec<Value>, field: Field) -> (r: Result<Vec<UriWrapper>, ParseTorrentError>)
    ensures
        match spec_uris(spec_views(items@), 0, field) {
            Ok(models) => r matches Ok(found) && spec_uri_models(found@) == models,
            Err(e) => r matches Err(f) && f == e,
        },
{
    let ghost views = spec_views(items@);
    let mut out: Vec<UriWrapper> = Vec::new();
    let mut i: usize = 0;
    proof {
        match spec_uris(views, 0, field) {
            Ok(t) => {
                assert(spec_uri_models(out@) + t =~= t);
            },
            Err(_) => {},
        }
    }
    while i < items.len()
        invariant
            i <= items@.len(),
            views == spec_views(items@),
            spec_uris(views, 0, field) == spec_uris_after(
                spec_uri_models(out@),
                spec_uris(views, i as int, field),
            ),
        decreases items@.len() - i,
    {
        assert(views[i as int] == items@[i as int]@);
        let bytes = match items[i].as_bytes() {
            Some(b) => b,
            None => {
                return Err(ParseTorrentError::InvalidType { field, expected: ValueKind::Bytes });
            },
        };
        let one = match uri(bytes, field) {
            Ok(u) => u,
            Err(e) => {
                return Err(e);
            },
        };
        proof {
            let before = spec_uri_models(out@);
            assert(spec_uri_models(out@.push(one)) =~= before + seq![one@]);
            match spec_uris(views, i + 1, field) {
                Ok(more) => {
                    assert((before + seq![one@]) + more =~= before + (seq![one@] + more));
                },
                Err(_) => {},
            }
        }
        out.push(one);
        i += 1;
    }
    proof {
        assert(spec_uri_models(out@) + Seq::<UriModel>::empty() =~= spec_uri_models(out@));
    }
    Ok(out)
}

/// The tiers of trackers that the values of a list are.
pub fn tiers(items: &Vec<Value>) -> (r: Result<Vec<Vec<UriWrapper>>, ParseTorrentError>)
    ensures
        match spec_tiers(spec_views(items@), 0) {
            Ok(models) => r matches Ok(found) && spec_tier_models(found@) == models,
            Err(e) => r matches Err(f) && f == e,
        },
{
    let ghost views = spec_views(items@);
    let mut out: Vec<Vec<UriWrapper>> = Vec::new();
    let mut i: usize = 0;
    proof {
        match spec_tiers(views, 0) {
            Ok(t) => {
                assert(spec_tier_models(out@) + t =~= t);
            },
            Err(_) => {},
        }
    }
    while i < items.len()
        invariant
            i <= items@.len(),
            views == spec_views(items@),
            spec_tiers(views, 0) == spec_tiers_after(
                spec_tier_models(out@),
                spec_tiers(views, i as int),
            ),
        decreases items@.len() - i,
    {
        assert(views[i as int] == items@[i as int]@);
        let tier = match items[i].as_list() {
            Some(t) => t,
            None => {
                return Err(
                    ParseTorrentError::InvalidType {
                        field: Field::AnnounceList,
                        expected: ValueKind::List,
                    },
                );
            },
        };
        let one = match uris(tier, Field::AnnounceList) {
            Ok(u) => u,
            Err(e) => {
                return Err(e);
            },
        };
        proof {
            let before = spec_tier_models(out@);
            assert(spec_tier_models(out@.push(one)) =~= before + seq![spec_uri_models(one@)]);
            match spec_tiers(views, i + 1) {
                Ok(more) => {
                    assert((before + seq![spec_uri_models(one@)]) + more =~= before + (seq![
                        spec_uri_models(one@),
                    ] + more));
                },
                Err(_) => {},
            }
        }
        out.push(one);
        i += 1;
    }
    proof {
        assert(spec_tier_models(out@) + Seq::<Seq<UriModel>>::empty() =~= spec_tier_models(out@));
    }
    Ok(out)
}

/// The nodes that the values of a list are.
pub fn nodes(items: &Vec<Value>) -> (r: Result<Vec<Node>, ParseTorrentError>)
    ensures
        match spec_nodes(spec_views(items@), 0) {
            Ok(models) => r matches Ok(found) && spec_node_models(found@) == models,
            Err(e) => r matches Err(f) && f == e,
        },
{
    let ghost views = spec_views(items@);
    let mut out: Vec<Node> = Vec::new();
    let mut i: usize = 0;
    proof {
        match spec_nodes(views, 0) {
            Ok(t) => {
                assert(spec_node_models(out@) + t =~= t);
            },
            Err(_) => {},
        }
    }
    while i < items.len()
        invariant
            i <= items@.len(),
            views == spec_views(items@),
            spec_nodes(views, 0) == spec_uris_after(
                spec_node_models(out@),
                spec_nodes(views, i as int),
            ),
        decreases items@.len() - i,
    {
        assert(views[i as int] == items@[i as int]@);
        let one = match Node::from_value(&items[i]) {
            Ok(n) => n,
            Err(e) => {
                return Err(e);
            },
        };
        proof {
            let before = spec_node_models(out@);
            assert(spec_node_models(out@.push(one)) =~= before + seq![one@]);
            match spec_nodes(views, i + 1) {
                Ok(more) => {
                    assert((before + seq![one@]) + more =~= before + (seq![one@] + more));
                },
                Err(_) => {},
            }
        }
        out.push(one);
        i += 1;
    }
    proof {
        assert(spec_node_models(out@) + Seq::<UriModel>::empty() =~= spec_node_models(out@));
    }
    Ok(out)
}

/// The list of the texts of URIs.
pub open spec fn spec_uri_values(uris: Seq<UriModel>) -> Seq<ValueView> {
    Seq::new(uris.len(), |i: int| ValueView::Bytes(encode_utf8(uris[i].display)))
}

/// The list of the lists of the texts of the URIs of tiers.
pub open spec fn spec_tier_values(tiers: Seq<Seq<UriModel>>) -> Seq<ValueView> {
    Seq::new(tiers.len(), |i: int| ValueView::List(spec_uri_values(tiers[i])))
}

/// The list of the pairs of host and port of nodes.
pub open spec fn spec_node_values(nodes: Seq<UriModel>) -> Seq<ValueView> {
    Seq::new(
        nodes.len(),
        |i: int|
            match nodes[i].port {
                Some(port) => ValueView::List(
                    seq![
                        ValueView::Bytes(spec_node_host(nodes[i], port)),
                        ValueView::Int(port as i64),
                    ],
                ),
                None => ValueView::List(Seq::empty()),
            },
    )
}

/// URIs as a value: the list of their texts.
pub fn uris_value(uris: &Vec<UriWrapper>) -> (r: Value)
    ensures
        r@ == ValueView::List(spec_uri_values(spec_uri_models(uris@))),
{
    let mut items: Vec<Value> = Vec::new();
    let mut i: usize = 0;
    while i < uris.len()
        invariant
            i <= uris@.len(),
            items@.len() == i,
            forall|k: int|
                0 <= k < i ==> (#[trigger] items@[k])@ == ValueView::Bytes(
                    encode_utf8(uris@[k]@.display),
                ),
        decreases uris@.len() - i,
    {
        items.push(text_value(uris[i].as_str()));
        i += 1;
    }
    assert(spec_views(items@) =~= spec_uri_values(spec_uri_models(uris@)));
    list_value(items)
}

/// Tiers of trackers as a value: the list of the lists of their texts.
pub fn tiers_value(tiers: &Vec<Vec<UriWrapper>>) -> (r: Value)
    ensures
        r@ == ValueView::List(spec_tier_values(spec_tier_models(tiers@))),
{
    let mut items: Vec<Value> = Vec::new();
    let mut i: usize = 0;
    while i < tiers.len()
        invariant
            i <= tiers@.len(),
            items@.len() == i,
            forall|k: int|
                0 <= k < i ==> (#[trigger] items@[k])@ == ValueView::List(
                    spec_uri_values(spec_uri_models(tiers@[k]@)),
                ),
        decreases tiers@.len() - i,
    {
        items.push(uris_value(&tiers[i]));
        i += 1;
    }
    assert(spec_views(items@) =~= spec_tier_values(spec_tier_models(tiers@)));
    list_value(items)
}

/// Nodes as a value: the list of their pairs of host and port.
pub fn nodes_value(nodes: &Vec<Node>) -> (r: Value)
    ensures
        r@ == ValueView::List(spec_node_values(spec_node_models(nodes@))),
{
    let mut items: Vec<Value> = Vec::new();
    let mut i: usize = 0;
    while i < nodes.len()
        invariant
            i <= nodes@.len(),
            items@.len() == i,
            forall|k: int|
                0 <= k < i ==> (#[trigger] items@[k])@ == spec_node_values(
                    spec_node_models(nodes@),
                )[k],
        decreases nodes@.len() - i,
    {
        items.push(nodes[i].to_value());
        i += 1;
    }
    assert(spec_views(items@) =~= spec_node_values(spec_node_models(nodes@)));
    list_value(items)
}

} // verus!
