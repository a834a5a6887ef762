//! A node of the distributed hash table.
//!
//! On the wire a node is a pair of a host and a port. Here it is one URI
//! whose authority ends in the port. Reading a node puts `:` and the port
//! behind the authority of the host and has the result checked as any URI
//! is; writing a node looks from the end of the authority for `:` and the
//! port, takes them out, and gives the rest with the port beside it.

use crate::bencode::integer::spec_digits;
use crate::bencode::number::push_digits;
use crate::bencode::value::spec_views;
use crate::bencode::value::Value;
use crate::bencode::value::ValueView;
use crate::error::Field;
use crate::error::ParseTorrentError;
use crate::error::UriError;
use crate::error::ValueKind;
use crate::metainfo::encode::bytes_value;
use crate::metainfo::encode::list_value;
use crate::text::bytes_eq;
use crate::uri::uriwrapper::compose;
use crate::uri::uriwrapper::spec_compose;
use crate::uri::uriwrapper::spec_validate_uri;
use crate::uri::uriwrapper::UriModel;
use crate::uri::uriwrapper::UriWrapper;
use vstd::prelude::*;
use vstd::slice::slice_subrange;

verus! {

/// `:` and the digits of a port, as they stand at the end of an authority.
pub open spec fn spec_port_suffix(port: u16) -> Seq<u8> {
    seq![0x3au8] + spec_digits(port as nat)
}

/// Whether `needle` stands in `hay` at the place `at`.
pub open spec fn spec_stands_at(hay: Seq<u8>, needle: Seq<u8>, at: int) -> bool {
    0 <= at && at + needle.len() <= hay.len() && hay.subrange(at, at + needle.len()) == needle
}

/// The last place at or before `from` at which `needle` stands in `hay`.
pub open spec fn spec_rfind_from(hay: Seq<u8>, needle: Seq<u8>, from: int) -> Option<int>
    decreases from + 1,
{
    if from < 0 {
        None
    } else if spec_stands_at(hay, needle, from) {
        Some(from)
    } else {
        spec_rfind_from(hay, needle, from - 1)
    }
}

/// The last place at which `needle` stands in `hay`.
pub open spec fn spec_rfind(hay: Seq<u8>, needle: Seq<u8>) -> Option<int> {
    spec_rfind_from(hay, needle, hay.len() - needle.len())
}

/// An authority without the last `:` and port that stand in it; the
/// authority itself where they stand nowhere.
pub open spec fn spec_remove_port(authority: Seq<u8>, port: u16) -> Seq<u8> {
    match spec_rfind(authority, spec_port_suffix(port)) {
        Some(at) => authority.subrange(0, at) + authority.subrange(
            at + spec_port_suffix(port).len(),
            authority.len() as int,
        ),
        None => authority,
    }
}

/// The text of a URI with the port taken out of its authority.
pub open spec fn spec_node_host(model: UriModel, port: u16) -> Seq<u8> {
    spec_compose(
        model.scheme,
        spec_remove_port(
            match model.authority {
                Some(a) => a,
                None => Seq::empty(),
            },
            port,
        ),
        model.path_and_query,
    )
}

/// The text of a URI with `:` and a port put behind its authority.
pub open spec fn spec_node_text(model: UriModel, port: u16) -> Seq<u8> {
    spec_compose(
        model.scheme,
        (match model.authority {
            Some(a) => a,
            None => Seq::empty(),
        }) + spec_port_suffix(port),
        model.path_and_query,
    )
}

/// Whether `joined` is `bare` with `:` and the port behind its authority,
/// and nothing else changed.
pub open spec fn spec_is_joined(bare: UriModel, joined: UriModel, port: u16) -> bool {
    &&& joined.port == Some(port)
    &&& joined.scheme == bare.scheme
    &&& bare.authority matches Some(authority) && joined.authority == Some(
        authority + spec_port_suffix(port),
    )
    &&& joined.path_and_query == bare.path_and_query
}

/// What a host and a port are as a node. The host must be a URI that a
/// torrent may name, and the port a port; the URI with the port behind its
/// authority must be such a URI again, name that port, and differ from the
/// host in nothing but the port.
pub open spec fn spec_decode_node(host: Seq<u8>, port: i64) -> Result<UriModel, ParseTorrentError> {
    match spec_validate_uri(host) {
        Err(e) => Err(ParseTorrentError::Uri { field: Field::Nodes, error: e }),
        Ok(model) => if !(0 <= port <= 65535) {
            Err(ParseTorrentError::InvalidValue { field: Field::Nodes })
        } else {
            match spec_validate_uri(spec_node_text(model, port as u16)) {
                Err(e) => Err(ParseTorrentError::Uri { field: Field::Nodes, error: e }),
                Ok(joined) => if spec_is_joined(model, joined, port as u16) {
                    Ok(joined)
                } else {
                    Err(ParseTorrentError::Uri { field: Field::Nodes, error: UriError::MissingPort })
                },
            }
        },
    }
}

/// A node is written with the host that it was read with: the text of the
/// URI of the host, put together from its parts. The port goes in and out
/// without a trace, whatever the scheme.
pub proof fn lemma_node_round_trip(host: Seq<u8>, port: i64)
    requires
        spec_decode_node(host, port) is Ok,
    ensures
        spec_validate_uri(host) is Ok,
        0 <= port <= 65535,
        spec_decode_node(host, port)->Ok_0.port == Some(port as u16),
        spec_node_host(spec_decode_node(host, port)->Ok_0, port as u16) == spec_compose(
            spec_validate_uri(host)->Ok_0.scheme,
            spec_validate_uri(host)->Ok_0.authority->Some_0,
            spec_validate_uri(host)->Ok_0.path_and_query,
        ),
{
    let bare = spec_validate_uri(host)->Ok_0;
    lemma_remove_port(bare.authority->Some_0, port as u16);
}

/// Whether two byte strings that need not be there are the same.
pub fn opt_bytes_eq(a: &Option<Vec<u8>>, b: &Option<Vec<u8>>) -> (r: bool)
    ensures
        r == (match (*a, *b) {
            (Some(x), Some(y)) => x@ == y@,
            (None, None) => true,
            _ => false,
        }),
{
    match (a, b) {
        (Some(x), Some(y)) => bytes_eq(x.as_slice(), y.as_slice()),
        (None, None) => true,
        _ => false,
    }
}

/// What a value is as a node: a list of two, a host and a port.
pub open spec fn spec_decode_node_value(value: ValueView) -> Result<UriModel, ParseTorrentError> {
    match value {
        ValueView::List(items) => if items.len() != 2 {
            Err(ParseTorrentError::InvalidLength { field: Field::Nodes, actual: items.len() as usize })
        } else {
            match (items[0], items[1]) {
                (ValueView::Bytes(host), ValueView::Int(port)) => spec_decode_node(host, port),
                (ValueView::Bytes(_), _) => Err(
                    ParseTorrentError::InvalidType { field: Field::Nodes, expected: ValueKind::Int },
                ),
                _ => Err(
                    ParseTorrentError::InvalidType {
                        field: Field::Nodes,
                        expected: ValueKind::Bytes,
                    },
                ),
            }
        },
        _ => Err(ParseTorrentError::InvalidType { field: Field::Nodes, expected: ValueKind::List }),
    }
}

/// `:` and the digits of a port.
pub fn port_suffix(port: u16) -> (r: Vec<u8>)
    ensures
        r@ == spec_port_suffix(port),
{
    let mut out: Vec<u8> = Vec::new();
    out.push(0x3a);
    push_digits(port as u128, &mut out);
    out
}

/// The last place at which `needle` stands in `hay`.
pub fn rfind(hay: &[u8], needle: &[u8]) -> (r: Option<usize>)
    ensures
        match spec_rfind(hay@, needle@) {
            Some(at) => r matches Some(found) && found == at && found + needle@.len()
                <= hay@.len(),
            None => r is None,
        },
{
    let hay_len: usize = hay.len();
    let needle_len: usize = needle.len();
    if needle_len > hay_len {
        return None;
    }
    let mut at: usize = hay_len - needle_len;
    loop
        invariant
            hay_len == hay@.len(),
            needle_len == needle@.len(),
            at + needle_len <= hay_len,
            spec_rfind(hay@, needle@) == spec_rfind_from(hay@, needle@, at as int),
        decreases at,
    {
        if bytes_eq(slice_subrange(hay, at, at + needle_len), needle) {
            return Some(at);
        }
        if at == 0 {
            assert(spec_rfind_from(hay@, needle@, -1) is None);
            return None;
        }
        at -= 1;
    }
}

/// What stands at the end of a text is what is found last in it.
pub proof fn lemma_rfind_suffix(front: Seq<u8>, needle: Seq<u8>)
    ensures
        spec_rfind(front + needle, needle) == Some(front.len() as int),
{
    let hay = front + needle;
    assert(hay.subrange(front.len() as int, hay.len() as int) =~= needle);
}

/// A port that was put behind an authority is taken out again, and what is
/// left is the authority: whatever the authority is, and whatever the port.
pub proof fn lemma_remove_port(authority: Seq<u8>, port: u16)
    ensures
        spec_remove_port(authority + spec_port_suffix(port), port) == authority,
{
    lemma_rfind_suffix(authority, spec_port_suffix(port));
    let joined = authority + spec_port_suffix(port);
    let at = authority.len() as int;
    assert(joined.subrange(0, at) + joined.subrange(
        at + spec_port_suffix(port).len(),
        joined.len() as int,
    ) =~= authority);
}

/// A node of the distributed hash table: a URI that names a port.
#[derive(Debug)]
pub struct Node {
    uri: UriWrapper,
}

impl View for Node {
    type V = UriModel;

    closed spec fn view(&self) -> UriModel {
        self.uri@
    }
}

impl Node {
    #[verifier::type_invariant]
    spec fn wf(&self) -> bool {
        self.uri@.port is Some && self.uri@.authority is Some
    }

    /// The URI of the node, with the port in its authority.
    pub fn as_uri(&self) -> (r: &UriWrapper)
        ensures
            r@ == self@,
            r@.port is Some,
    {
        proof {
            use_type_invariant(self);
        }
        &self.uri
    }

    /// Take a host and a port as a node.
    pub fn deserialize(host: &[u8], port: i64) -> (r: Result<Self, ParseTorrentError>)
        ensures
            match spec_decode_node(host@, port) {
                Ok(model) => r matches Ok(node) && node@ == model,
                Err(e) => r matches Err(f) && f == e,
            },
    {
        let bare = match UriWrapper::from_bytes(host) {
            Err(e) => {
                return Err(ParseTorrentError::Uri { field: Field::Nodes, error: e });
            },
            Ok(uri) => uri,
        };
        if !(0 <= port && port <= 65535) {
            return Err(ParseTorrentError::InvalidValue { field: Field::Nodes });
        }
        let port: u16 = port as u16;
        let parts = bare.parts();
        let mut authority: Vec<u8> = match &parts.authority {
            Some(a) => a.clone(),
            None => Vec::new(),
        };
        let mut suffix = port_suffix(port);
        authority.append(&mut suffix);
        let text = compose(&parts.scheme, authority.as_slice(), &parts.path_and_query);
        match UriWrapper::from_bytes(text.as_slice()) {
            Err(e) => Err(ParseTorrentError::Uri { field: Field::Nodes, error: e }),
            Ok(uri) => {
                let joined = uri.parts();
                let same_port = match joined.port {
                    Some(p) => p == port,
                    None => false,
                };
                let same = same_port && opt_bytes_eq(&joined.scheme, &parts.scheme) && bytes_eq(
                    uri.authority(),
                    authority.as_slice(),
                ) && opt_bytes_eq(&joined.path_and_query, &parts.path_and_query);
                if same {
                    Self::from_uri(uri)
                } else {
                    Err(
                        ParseTorrentError::Uri {
                            field: Field::Nodes,
                            error: UriError::MissingPort,
                        },
                    )
                }
            },
        }
    }

    /// Take a URI as a node: it must name a port.
    pub fn from_uri(uri: UriWrapper) -> (r: Result<Self, ParseTorrentError>)
        ensures
            uri@.port is Some ==> (r matches Ok(node) && node@ == uri@),
            uri@.port is None ==> (r matches Err(e) && e == ParseTorrentError::Uri {
                field: Field::Nodes,
                error: UriError::MissingPort,
            }),
    {
        let has_port = uri.port().is_some();
        let has_authority = uri.parts().authority.is_some();
        if has_port && has_authority {
            Ok(Node { uri })
        } else {
            Err(ParseTorrentError::Uri { field: Field::Nodes, error: UriError::MissingPort })
        }
    }

    /// The host of the node, which is its URI without the port, and the
    /// port.
    pub fn serialize(&self) -> (r: (Vec<u8>, u16))
        ensures
            self@.port == Some(r.1),
            r.0@ == spec_node_host(self@, r.1),
    {
        proof {
            use_type_invariant(self);
        }
        let parts = self.uri.parts();
        let port: u16 = match parts.port {
            Some(p) => p,
            None => 0,
        };
        let authority: &[u8] = self.uri.authority();
        let total: usize = authority.len();
        let suffix = port_suffix(port);
        let width: usize = suffix.len();
        let without: Vec<u8> = match rfind(authority, suffix.as_slice()) {
            Some(at) => {
                let mut out = vstd::slice::slice_to_vec(slice_subrange(authority, 0, at));
                out.extend_from_slice(slice_subrange(authority, at + width, total));
                out
            },
            None => vstd::slice::slice_to_vec(authority),
        };
        let host = compose(&parts.scheme, without.as_slice(), &parts.path_and_query);
        (host, port)
    }

    /// The node as a value: the list of its host and its port.
    pub fn to_value(&self) -> (r: Value)
        ensures
            self@.port is Some,
            r@ == ValueView::List(
                seq![
                    ValueView::Bytes(spec_node_host(self@, self@.port->Some_0)),
                    ValueView::Int(self@.port->Some_0 as i64),
                ],
            ),
    {
        let (host, port) = self.serialize();
        let mut items: Vec<Value> = Vec::new();
        items.push(bytes_value(host.as_slice()));
        items.push(Value::Int(port as i64));
        assert(spec_views(items@) =~= seq![
            ValueView::Bytes(spec_node_host(self@, port)),
            ValueView::Int(port as i64),
        ]);
        list_value(items)
    }

    /// Take a value as a node: it must be a list of a host and a port.
    pub fn from_value(value: &Value) -> (r: Result<Self, ParseTorrentError>)
        ensures
            match spec_decode_node_value(value@) {
                Ok(model) => r matches Ok(node) && node@ == model,
                Err(e) => r matches Err(f) && f == e,
            },
    {
        let items = match value.as_list() {
            None => {
                return Err(
                    ParseTorrentError::InvalidType { field: Field::Nodes, expected: ValueKind::List },
                );
            },
            Some(items) => items,
        };
        if items.len() != 2 {
            return Err(ParseTorrentError::InvalidLength { field: Field::Nodes, actual: items.len() });
        }
        assert(spec_views(items@)[0] == items@[0]@);
        assert(spec_views(items@)[1] == items@[1]@);
        let host = match items[0].as_bytes() {
            None => {
                return Err(
                    ParseTorrentError::InvalidType {
                        field: Field::Nodes,
                        expected: ValueKind::Bytes,
                    },
                );
            },
            Some(host) => host,
        };
        let port = match items[1].as_int() {
            None => {
                return Err(
                    ParseTorrentError::InvalidType { field: Field::Nodes, expected: ValueKind::Int },
                );
            },
            Some(port) => port,
        };
        Self::deserialize(host, port)
    }
}

} // verus!
