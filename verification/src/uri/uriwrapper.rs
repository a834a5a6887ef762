//! A URI that a torrent may name.
//!
//! The text must parse as a URI and name a host: a text without a host is a
//! relative reference, which may lead anywhere on the machine that reads
//! the torrent. Where the URI has a scheme, the scheme is put in lower case
//! and must be one of a short list; `file` is not on it.
//!
//! Parsing is the work of the `http` crate. Verus does not see it: the
//! functions `uri_parses`, `uri_scheme` and those beside them name what the
//! crate makes of a text, and the contract of the one call into the crate
//! is stated over them and assumed.

use crate::error::UriError;
use crate::hexadecimal::ascii_lower;
use crate::hexadecimal::spec_lower;
use crate::text::bytes_eq;
use http::Uri;
use vstd::prelude::*;
use vstd::string::StringSliceAdditionalSpecFns;

verus! {

/// Whether `http` accepts the text as a URI.
pub uninterp spec fn uri_parses(text: Seq<u8>) -> bool;

/// The scheme that `http` finds in the text, if it finds one.
pub uninterp spec fn uri_scheme(text: Seq<u8>) -> Option<Seq<u8>>;

/// The authority that `http` finds in the text, if it finds one.
pub uninterp spec fn uri_authority(text: Seq<u8>) -> Option<Seq<u8>>;

/// The port that `http` finds in the authority of the text.
pub uninterp spec fn uri_port(text: Seq<u8>) -> Option<u16>;

/// The path and query that `http` finds in the text.
pub uninterp spec fn uri_path_and_query(text: Seq<u8>) -> Option<Seq<u8>>;

/// The text that `http` writes for the URI that it made of the text.
pub uninterp spec fn uri_display(text: Seq<u8>) -> Seq<char>;

/// What `http` makes of a text that it accepts.
#[derive(Debug)]
pub struct UriParts {
    pub scheme: Option<Vec<u8>>,
    pub authority: Option<Vec<u8>>,
    pub port: Option<u16>,
    pub path_and_query: Option<Vec<u8>>,
    pub display: String,
}

/// What `http` makes of a text, as contracts see it.
pub struct UriModel {
    pub scheme: Option<Seq<u8>>,
    pub authority: Option<Seq<u8>>,
    pub port: Option<u16>,
    pub path_and_query: Option<Seq<u8>>,
    pub display: Seq<char>,
}

impl View for UriParts {
    type V = UriModel;

    open spec fn view(&self) -> UriModel {
        UriModel {
            scheme: match self.scheme {
                Some(s) => Some(s@),
                None => None,
            },
            authority: match self.authority {
                Some(a) => Some(a@),
                None => None,
            },
            port: self.port,
            path_and_query: match self.path_and_query {
                Some(p) => Some(p@),
                None => None,
            },
            display: self.display@,
        }
    }
}

/// What `http` makes of a text.
pub open spec fn spec_uri_model(text: Seq<u8>) -> UriModel {
    UriModel {
        scheme: uri_scheme(text),
        authority: uri_authority(text),
        port: uri_port(text),
        path_and_query: uri_path_and_query(text),
        display: uri_display(text),
    }
}

/// `Uri::try_from` of `http`, and what the accessors `scheme_str`,
/// `authority`, `port_u16` and `path_and_query` and the `Display` of the
/// result give. Assumed: all of them depend on the text alone.
#[verifier::external_body]
fn uri_parse(text: &[u8]) -> (r: Option<UriParts>)
    ensures
        r is Some <==> uri_parses(text@),
        r matches Some(parts) ==> parts@.scheme == uri_scheme(text@),
        r matches Some(parts) ==> parts@.authority == uri_authority(text@),
        r matches Some(parts) ==> parts@.port == uri_port(text@),
        r matches Some(parts) ==> parts@.path_and_query == uri_path_and_query(text@),
        r matches Some(parts) ==> parts@.display == uri_display(text@),
{
    let uri = Uri::try_from(text).ok()?;
    Some(
        UriParts {
            scheme: uri.scheme_str().map(|s| s.as_bytes().to_vec()),
            authority: uri.authority().map(|a| a.as_str().as_bytes().to_vec()),
            port: uri.port_u16(),
            path_and_query: uri.path_and_query().map(|p| p.as_str().as_bytes().to_vec()),
            display: uri.to_string(),
        },
    )
}

/// The schemes that a torrent may name.
pub open spec fn spec_sanctioned_schemes() -> Seq<&'static str> {
    seq![
        "ed2k",
        "ftp",
        "http",
        "https",
        "gopher",
        "magnet",
        "sftp",
        "tcp",
        "tftp",
        "udp",
        "ws",
        "wss",
    ]
}

/// Whether a scheme is one that a torrent may name.
pub open spec fn spec_sanctioned(scheme: Seq<u8>) -> bool {
    exists|i: int|
        0 <= i < spec_sanctioned_schemes().len() && (
        #[trigger] spec_sanctioned_schemes()[i]).spec_bytes() == scheme
}

/// The schemes that a torrent may name.
pub fn sanctioned_schemes() -> (r: Vec<&'static str>)
    ensures
        r@ == spec_sanctioned_schemes(),
{
    let mut schemes: Vec<&'static str> = Vec::new();
    schemes.push("ed2k");
    schemes.push("ftp");
    schemes.push("http");
    schemes.push("https");
    schemes.push("gopher");
    schemes.push("magnet");
    schemes.push("sftp");
    schemes.push("tcp");
    schemes.push("tftp");
    schemes.push("udp");
    schemes.push("ws");
    schemes.push("wss");
    assert(schemes@ =~= spec_sanctioned_schemes());
    schemes
}

/// Whether a scheme is one that a torrent may name.
pub fn is_sanctioned(scheme: &[u8]) -> (r: bool)
    ensures
        r == spec_sanctioned(scheme@),
{
    let schemes = sanctioned_schemes();
    let mut i: usize = 0;
    while i < schemes.len()
        invariant
            i <= schemes@.len(),
            schemes@ == spec_sanctioned_schemes(),
            forall|k: int| 0 <= k < i ==> (#[trigger] schemes@[k]).spec_bytes() != scheme@,
        decreases schemes@.len() - i,
    {
        if bytes_eq(schemes[i].as_bytes(), scheme) {
            return true;
        }
        i += 1;
    }
    false
}

/// A text in lower case.
pub fn lower(text: &[u8]) -> (r: Vec<u8>)
    ensures
        r@ == spec_lower(text@),
{
    let mut out: Vec<u8> = Vec::new();
    let mut i: usize = 0;
    while i < text.len()
        invariant
            i <= text@.len(),
            out@.len() == i,
            forall|k: int| 0 <= k < i ==> out@[k] == crate::hexadecimal::spec_ascii_lower(
                #[trigger] text@[k],
            ),
        decreases text@.len() - i,
    {
        out.push(ascii_lower(text[i]));
        i += 1;
    }
    assert(out@ =~= spec_lower(text@));
    out
}

/// The text of a URI from its parts: the scheme and `://` where there is a
/// scheme, the authority, and the path and query where there is one.
pub open spec fn spec_compose(
    scheme: Option<Seq<u8>>,
    authority: Seq<u8>,
    path_and_query: Option<Seq<u8>>,
) -> Seq<u8> {
    (match scheme {
        Some(s) => s + seq![0x3au8, 0x2fu8, 0x2fu8],
        None => Seq::empty(),
    }) + authority + (match path_and_query {
        Some(p) => p,
        None => Seq::empty(),
    })
}

/// The text of a URI from its parts.
pub fn compose(scheme: &Option<Vec<u8>>, authority: &[u8], path_and_query: &Option<Vec<u8>>) -> (r:
    Vec<u8>)
    ensures
        r@ == spec_compose(
            match *scheme {
                Some(s) => Some(s@),
                None => None,
            },
            authority@,
            match *path_and_query {
                Some(p) => Some(p@),
                None => None,
            },
        ),
{
    let mut out: Vec<u8> = Vec::new();
    match scheme {
        Some(s) => {
            out.extend_from_slice(s.as_slice());
            out.push(0x3a);
            out.push(0x2f);
            out.push(0x2f);
        },
        None => {},
    }
    out.extend_from_slice(authority);
    match path_and_query {
        Some(p) => {
            out.extend_from_slice(p.as_slice());
        },
        None => {},
    }
    assert(out@ =~= spec_compose(
        match *scheme {
            Some(s) => Some(s@),
            None => None,
        },
        authority@,
        match *path_and_query {
            Some(p) => Some(p@),
            None => None,
        },
    ));
    out
}

/// What a text is as a URI of a torrent.
///
/// The text must parse, else it is invalid; it must have an authority, and
/// with it a host, else it is relative. Without a scheme it is taken as it
/// is. With a scheme, the scheme in lower case must be one that a torrent
/// may name. Where the scheme stands in lower case already the URI is taken
/// as it is; else the URI is put together again with the scheme in lower
/// case and parsed once more.
pub open spec fn spec_validate_uri(text: Seq<u8>) -> Result<UriModel, UriError> {
    if !uri_parses(text) {
        Err(UriError::Invalid)
    } else {
        match uri_authority(text) {
            None => Err(UriError::Relative),
            Some(authority) => match uri_scheme(text) {
                None => Ok(spec_uri_model(text)),
                Some(scheme) => if !spec_sanctioned(spec_lower(scheme)) {
                    Err(UriError::InvalidScheme)
                } else if spec_lower(scheme) == scheme {
                    Ok(spec_uri_model(text))
                } else {
                    let again = spec_compose(
                        Some(spec_lower(scheme)),
                        authority,
                        uri_path_and_query(text),
                    );
                    if uri_parses(again) && uri_authority(again) is Some {
                        Ok(spec_uri_model(again))
                    } else {
                        Err(UriError::Invalid)
                    }
                },
            },
        }
    }
}

/// A URI that a torrent may name: it names a host, and its scheme, if it
/// has one, is on the list.
#[derive(Debug)]
pub struct UriWrapper {
    parts: UriParts,
}

/// A URL that a torrent may name; the same as a URI here.
pub type UrlWrapper = UriWrapper;

impl View for UriWrapper {
    type V = UriModel;

    closed spec fn view(&self) -> UriModel {
        self.parts@
    }
}

impl UriWrapper {
    #[verifier::type_invariant]
    spec fn wf(&self) -> bool {
        self.parts.authority is Some
    }

    /// Take a text as a URI of a torrent.
    pub fn from_bytes(text: &[u8]) -> (r: Result<Self, UriError>)
        ensures
            match spec_validate_uri(text@) {
                Ok(model) => r matches Ok(uri) && uri@ == model,
                Err(e) => r matches Err(f) && f == e,
            },
    {
        let parts = match uri_parse(text) {
            None => {
                return Err(UriError::Invalid);
            },
            Some(parts) => parts,
        };
        let authority = match &parts.authority {
            None => {
                return Err(UriError::Relative);
            },
            Some(authority) => authority,
        };
        let scheme = match &parts.scheme {
            None => {
                return Ok(UriWrapper { parts });
            },
            Some(scheme) => scheme,
        };
        let lowered = lower(scheme.as_slice());
        if !is_sanctioned(lowered.as_slice()) {
            return Err(UriError::InvalidScheme);
        }
        if bytes_eq(lowered.as_slice(), scheme.as_slice()) {
            return Ok(UriWrapper { parts });
        }
        let again = compose(&Some(lowered), authority.as_slice(), &parts.path_and_query);
        match uri_parse(again.as_slice()) {
            None => Err(UriError::Invalid),
            Some(parts) => {
                if parts.authority.is_some() {
                    Ok(UriWrapper { parts })
                } else {
                    Err(UriError::Invalid)
                }
            },
        }
    }

    /// Take a text as a URI of a torrent.
    pub fn from_str(s: &str) -> (r: Result<Self, UriError>)
        ensures
            match spec_validate_uri(s.spec_bytes()) {
                Ok(model) => r matches Ok(uri) && uri@ == model,
                Err(e) => r matches Err(f) && f == e,
            },
    {
        Self::from_bytes(s.as_bytes())
    }

    /// The URI as text, as `http` writes it.
    pub fn to_string(&self) -> (r: String)
        ensures
            r@ == self@.display,
    {
        self.parts.display.clone()
    }

    /// The URI as text, as `http` writes it.
    pub fn as_str(&self) -> (r: &str)
        ensures
            r@ == self@.display,
    {
        self.parts.display.as_str()
    }

    /// The scheme, if the URI has one.
    pub fn scheme(&self) -> (r: Option<&[u8]>)
        ensures
            match self@.scheme {
                Some(s) => r matches Some(found) && found@ == s,
                None => r is None,
            },
    {
        match &self.parts.scheme {
            Some(s) => Some(s.as_slice()),
            None => None,
        }
    }

    /// The authority: the host, with the port where the URI names one.
    pub fn authority(&self) -> (r: &[u8])
        ensures
            self@.authority == Some(r@),
    {
        proof {
            use_type_invariant(self);
        }
        match &self.parts.authority {
            Some(a) => a.as_slice(),
            None => {
                let empty: &[u8] = &[];
                empty
            },
        }
    }

    /// The port, if the URI names one.
    pub fn port(&self) -> (r: Option<u16>)
        ensures
            r == self@.port,
    {
        self.parts.port
    }

    /// The path and query, if the URI has them.
    pub fn path_and_query(&self) -> (r: Option<&[u8]>)
        ensures
            match self@.path_and_query {
                Some(p) => r matches Some(found) && found@ == p,
                None => r is None,
            },
    {
        match &self.parts.path_and_query {
            Some(p) => Some(p.as_slice()),
            None => None,
        }
    }

    /// The parts of the URI.
    pub fn parts(&self) -> (r: &UriParts)
        ensures
            r@ == self@,
            r.authority is Some,
    {
        proof {
            use_type_invariant(self);
        }
        &self.parts
    }
}

} // verus!
