//! Signatures of a torrent.

use crate::bencode::value::spec_pair_views;
use crate::bencode::value::Value;
use crate::bencode::value::ValueView;
use crate::dictionary::check_keys;
use crate::dictionary::opt_bytes;
use crate::dictionary::opt_dict;
use crate::dictionary::opt_text;
use crate::dictionary::spec_check_keys;
use crate::dictionary::spec_opt_bytes;
use crate::dictionary::spec_opt_dict;
use crate::dictionary::spec_opt_text;
use crate::dictionary::spec_text;
use crate::dictionary::text;
use crate::error::Field;
use crate::error::ParseTorrentError;
use crate::error::ValueKind;
use crate::hexadecimal::HexBytes;
use crate::metainfo::encode::bytes_value;
use crate::metainfo::encode::dict_value;
use crate::metainfo::encode::push_field;
use crate::metainfo::encode::spec_field;
use crate::metainfo::encode::spec_opt_field;
use crate::metainfo::encode::text_value;
use vstd::prelude::*;
use vstd::utf8::encode_utf8;

verus! {

/// What a signer adds to the info dictionary before signing; no field of it
/// is read here.
#[derive(Debug, Clone, Copy, PartialEq, Eq, Default)]
pub struct SignInfo {}

/// One signature of a torrent.
#[derive(Debug)]
pub struct Signature {
    pub certificate: Option<String>,
    pub info: Option<SignInfo>,
    pub signature: HexBytes,
}

/// One signature of a torrent as contracts see it.
pub struct SignatureModel {
    pub certificate: Option<Seq<char>>,
    /// Whether the signer added anything to the info dictionary.
    pub info: bool,
    pub signature: Seq<u8>,
}

impl Signature {
    /// What contracts see of the signature.
    pub open spec fn model(&self) -> SignatureModel {
        SignatureModel {
            certificate: match self.certificate {
                Some(c) => Some(c@),
                None => None,
            },
            info: self.info is Some,
            signature: self.signature@,
        }
    }
}

/// The fields that the dictionary of a signature knows.
pub open spec fn spec_signature_fields() -> Seq<Field> {
    seq![Field::Certificate, Field::Info, Field::Signature]
}

/// What a dictionary is as a signature. The fields are read in the order
/// `certificate`, `info`, `signature`; `signature` must be there. A strict
/// reading then refuses a key that is none of these.
pub open spec fn spec_decode_signature(dict: Seq<(Seq<u8>, ValueView)>, strict: bool) -> Result<
    SignatureModel,
    ParseTorrentError,
> {
    match spec_opt_text(dict, Field::Certificate) {
        Err(e) => Err(e),
        Ok(certificate) => match spec_opt_dict(dict, Field::Info) {
            Err(e) => Err(e),
            Ok(info) => match spec_opt_bytes(dict, Field::Signature) {
                Err(e) => Err(e),
                Ok(None) => Err(ParseTorrentError::MissingField(Field::Signature)),
                Ok(Some(signature)) => match spec_check_keys(
                    dict,
                    spec_signature_fields(),
                    Field::Signatures,
                    strict,
                ) {
                    Some(e) => Err(e),
                    None => Ok(SignatureModel { certificate, info: info is Some, signature }),
                },
            },
        },
    }
}

/// The signatures that the entries of a dictionary are, from the place
/// `from` on: each key is the name of a signer, and each value the
/// dictionary of a signature.
pub open spec fn spec_signatures(pairs: Seq<(Seq<u8>, ValueView)>, from: int, strict: bool) -> Result<
    Seq<(Seq<char>, SignatureModel)>,
    ParseTorrentError,
>
    decreases pairs.len() - from,
{
    if from < 0 || from >= pairs.len() {
        Ok(Seq::empty())
    } else {
        match spec_text(pairs[from].0, Field::Signatures) {
            Err(e) => Err(e),
            Ok(signer) => match pairs[from].1 {
                ValueView::Dict(dict) => match spec_decode_signature(dict, strict) {
                    Err(e) => Err(e),
                    Ok(first) => match spec_signatures(pairs, from + 1, strict) {
                        Err(e) => Err(e),
                        Ok(more) => Ok(seq![(signer, first)] + more),
                    },
                },
                _ => Err(
                    ParseTorrentError::InvalidType {
                        field: Field::Signatures,
                        expected: ValueKind::Dict,
                    },
                ),
            },
        }
    }
}

/// What contracts see of signatures with the names of their signers.
pub open spec fn spec_signature_models(signatures: Seq<(String, Signature)>) -> Seq<
    (Seq<char>, SignatureModel),
> {
    Seq::new(signatures.len(), |i: int| (signatures[i].0@, signatures[i].1.model()))
}

/// What is read with `front` put before it.
pub open spec fn spec_signatures_after(
    front: Seq<(Seq<char>, SignatureModel)>,
    r: Result<Seq<(Seq<char>, SignatureModel)>, ParseTorrentError>,
) -> Result<Seq<(Seq<char>, SignatureModel)>, ParseTorrentError> {
    match r {
        Ok(more) => Ok(front + more),
        Err(e) => Err(e),
    }
}

/// The fields that the dictionary of a signature knows.
pub fn signature_fields() -> (r: Vec<Field>)
    ensures
        r@ == spec_signature_fields(),
{
    let mut known: Vec<Field> = Vec::new();
    known.push(Field::Certificate);
    known.push(Field::Info);
    known.push(Field::Signature);
    assert(known@ =~= spec_signature_fields());
    known
}

impl Signature {
    /// Read a dictionary as a signature.
    pub fn deserialize(dict: &Vec<(Vec<u8>, Value)>, strict: bool) -> (r: Result<
        Self,
        ParseTorrentError,
    >)
        ensures
            match spec_decode_signature(spec_pair_views(dict@), strict) {
                Ok(model) => r matches Ok(s) && s.model() == model,
                Err(e) => r matches Err(f) && f == e,
            },
    {
        let certificate = match opt_text(dict, Field::Certificate) {
            Err(e) => {
                return Err(e);
            },
            Ok(c) => c,
        };
        let info = match opt_dict(dict, Field::Info) {
            Err(e) => {
                return Err(e);
            },
            Ok(None) => None,
            Ok(Some(_)) => Some(SignInfo {  }),
        };
        let signature = match opt_bytes(dict, Field::Signature) {
            Err(e) => {
                return Err(e);
            },
            Ok(None) => {
                return Err(ParseTorrentError::MissingField(Field::Signature));
            },
            Ok(Some(b)) => HexBytes::new(vstd::slice::slice_to_vec(b)),
        };
        let known = signature_fields();
        match check_keys(dict, &known, Field::Signatures, strict) {
            Err(e) => Err(e),
            Ok(_) => Ok(Signature { certificate, info, signature }),
        }
    }

    /// Read the entries of a dictionary as signatures.
    pub fn deserialize_all(pairs: &Vec<(Vec<u8>, Value)>, strict: bool) -> (r: Result<
        Vec<(String, Signature)>,
        ParseTorrentError,
    >)
        ensures
            match spec_signatures(spec_pair_views(pairs@), 0, strict) {
                Ok(models) => r matches Ok(found) && spec_signature_models(found@) == models,
                Err(e) => r matches Err(f) && f == e,
            },
    {
        let ghost views = spec_pair_views(pairs@);
        let mut out: Vec<(String, Signature)> = Vec::new();
        let mut i: usize = 0;
        proof {
            match spec_signatures(views, 0, strict) {
                Ok(t) => {
                    assert(spec_signature_models(out@) + t =~= t);
                },
                Err(_) => {},
            }
        }
        while i < pairs.len()
            invariant
                i <= pairs@.len(),
                views == spec_pair_views(pairs@),
                spec_signatures(views, 0, strict) == spec_signatures_after(
                    spec_signature_models(out@),
                    spec_signatures(views, i as int, strict),
                ),
            decreases pairs@.len() - i,
        {
            assert(views[i as int] == (pairs@[i as int].0@, pairs@[i as int].1@));
            let signer = match text(pairs[i].0.as_slice(), Field::Signatures) {
                Ok(s) => s,
                Err(e) => {
                    return Err(e);
                },
            };
            let dict = match pairs[i].1.as_dict() {
                Some(d) => d,
                None => {
                    return Err(
                        ParseTorrentError::InvalidType {
                            field: Field::Signatures,
                            expected: ValueKind::Dict,
                        },
                    );
                },
            };
            let one = match Signature::deserialize(dict, strict) {
                Ok(s) => s,
                Err(e) => {
                    return Err(e);
                },
            };
            proof {
                let before = spec_signature_models(out@);
                assert(spec_signature_models(out@.push((signer, one))) =~= before + seq![
                    (signer@, one.model()),
                ]);
                match spec_signatures(views, i + 1, strict) {
                    Ok(more) => {
                        assert((before + seq![(signer@, one.model())]) + more =~= before + (seq![
                            (signer@, one.model()),
                        ] + more));
                    },
                    Err(_) => {},
                }
            }
            out.push((signer, one));
            i += 1;
        }
        proof {
            assert(spec_signature_models(out@) + Seq::<(Seq<char>, SignatureModel)>::empty()
                =~= spec_signature_models(out@));
        }
        Ok(out)
    }
}

/// The dictionary of a signature: `certificate` where there is one, `info`
/// as an empty dictionary where the signer added anything, and `signature`.
pub open spec fn spec_encode_signature(model: SignatureModel) -> Seq<(Seq<u8>, ValueView)> {
    spec_opt_field(
        Field::Certificate,
        match model.certificate {
            Some(c) => Some(ValueView::Bytes(encode_utf8(c))),
            None => None,
        },
    ) + spec_opt_field(
        Field::Info,
        if model.info {
            Some(ValueView::Dict(Seq::empty()))
        } else {
            None
        },
    ) + spec_field(Field::Signature, ValueView::Bytes(model.signature))
}

/// The dictionary of signatures: each name of a signer with the dictionary
/// of the signature.
pub open spec fn spec_encode_signatures(signatures: Seq<(Seq<char>, SignatureModel)>) -> Seq<
    (Seq<u8>, ValueView),
> {
    Seq::new(
        signatures.len(),
        |i: int|
            (encode_utf8(signatures[i].0), ValueView::Dict(spec_encode_signature(signatures[i].1))),
    )
}

impl Signature {
    /// The dictionary of the signature.
    pub fn serialize(&self) -> (r: Vec<(Vec<u8>, Value)>)
        ensures
            spec_pair_views(r@) == spec_encode_signature(self.model()),
            crate::keys::spec_keys_ascending(spec_pair_views(r@)),
    {
        let mut pairs: Vec<(Vec<u8>, Value)> = Vec::new();
        assert(spec_pair_views(pairs@) =~= Seq::<(Seq<u8>, ValueView)>::empty());
        match &self.certificate {
            Some(c) => {
                push_field(&mut pairs, Field::Certificate, text_value(c.as_str()));
            },
            None => {},
        }
        match &self.info {
            Some(_) => {
                let empty: Vec<(Vec<u8>, Value)> = Vec::new();
                assert(spec_pair_views(empty@) =~= Seq::<(Seq<u8>, ValueView)>::empty());
                push_field(&mut pairs, Field::Info, dict_value(empty));
            },
            None => {},
        }
        push_field(&mut pairs, Field::Signature, bytes_value(self.signature.as_slice()));
        assert(spec_pair_views(pairs@) =~= spec_encode_signature(self.model()));
        proof {
            crate::keys::lemma_signature_keys(self.model());
        }
        pairs
    }
}

/// The dictionary of signatures.
pub fn signatures_value(signatures: &Vec<(String, Signature)>) -> (r: Value)
    ensures
        r@ == ValueView::Dict(spec_encode_signatures(spec_signature_models(signatures@))),
{
    let mut pairs: Vec<(Vec<u8>, Value)> = Vec::new();
    let mut i: usize = 0;
    while i < signatures.len()
        invariant
            i <= signatures@.len(),
            pairs@.len() == i,
            forall|k: int|
                0 <= k < i ==> (#[trigger] pairs@[k]).0@ == encode_utf8(signatures@[k].0@)
                    && pairs@[k].1@ == ValueView::Dict(
                    spec_encode_signature(signatures@[k].1.model()),
                ),
        decreases signatures@.len() - i,
    {
        let name = vstd::slice::slice_to_vec(signatures[i].0.as_str().as_bytes());
        pairs.push((name, dict_value(signatures[i].1.serialize())));
        i += 1;
    }
    assert(spec_pair_views(pairs@) =~= spec_encode_signatures(
        spec_signature_models(signatures@),
    ));
    dict_value(pairs)
}

} // verus!
