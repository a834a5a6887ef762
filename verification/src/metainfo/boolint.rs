//! A flag on the wire: the integer 0 or 1.

use crate::bencode::value::spec_get;
use crate::bencode::value::spec_pair_views;
use crate::bencode::value::Value;
use crate::bencode::value::ValueView;
use crate::dictionary::find;
use crate::error::spec_key;
use crate::error::Field;
use crate::error::ParseTorrentError;
use crate::error::ValueKind;
use vstd::prelude::*;

verus! {

/// What a value is as a flag: the integer 0 is `false` and 1 is `true`; any
/// other integer is refused, and so is a value that is no integer. Where no
/// value is there the flag is `false`.
pub open spec fn spec_bool_from_int(value: Option<ValueView>) -> Result<bool, ParseTorrentError> {
    match value {
        None => Ok(false),
        Some(ValueView::Int(n)) => if n == 0 {
            Ok(false)
        } else if n == 1 {
            Ok(true)
        } else {
            Err(ParseTorrentError::InvalidValue { field: Field::Private })
        },
        Some(_) => Err(
            ParseTorrentError::InvalidType { field: Field::Private, expected: ValueKind::Int },
        ),
    }
}

/// The integer that a flag is written as.
pub open spec fn spec_bool_to_int(private: bool) -> i64 {
    if private {
        1
    } else {
        0
    }
}

/// Read a flag.
pub fn bool_from_int(value: Option<&Value>) -> (r: Result<bool, ParseTorrentError>)
    ensures
        r == spec_bool_from_int(
            match value {
                Some(v) => Some(v@),
                None => None,
            },
        ),
{
    match value {
        None => Ok(false),
        Some(v) => match v.as_int() {
            Some(n) => {
                if n == 0 {
                    Ok(false)
                } else if n == 1 {
                    Ok(true)
                } else {
                    Err(ParseTorrentError::InvalidValue { field: Field::Private })
                }
            },
            None => Err(
                ParseTorrentError::InvalidType { field: Field::Private, expected: ValueKind::Int },
            ),
        },
    }
}

/// Write a flag.
pub fn bool_to_int(private: bool) -> (r: i64)
    ensures
        r == spec_bool_to_int(private),
{
    if private {
        1
    } else {
        0
    }
}

/// The flag `private` of a dictionary, as it stands on the wire: not there,
/// 0 or 1.
pub open spec fn spec_private(dict: Seq<(Seq<u8>, ValueView)>) -> Result<
    Option<bool>,
    ParseTorrentError,
> {
    match spec_get(dict, spec_key(Field::Private)) {
        None => Ok(None),
        Some(v) => match spec_bool_from_int(Some(v)) {
            Ok(b) => Ok(Some(b)),
            Err(e) => Err(e),
        },
    }
}

/// The flag `private` of a dictionary.
pub fn private_flag(pairs: &Vec<(Vec<u8>, Value)>) -> (r: Result<Option<bool>, ParseTorrentError>)
    ensures
        r == spec_private(spec_pair_views(pairs@)),
{
    match find(pairs, Field::Private) {
        None => Ok(None),
        Some(i) => match bool_from_int(Some(&pairs[i].1)) {
            Ok(b) => Ok(Some(b)),
            Err(e) => Err(e),
        },
    }
}

} // verus!
