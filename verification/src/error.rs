//! What is wrong with a torrent that does not decode.
//!
//! There are two kinds of failure. The bytes may be no Bencode: then the
//! trail of the codec says where and why. Or the Bencode may be no torrent:
//! a field is missing, has a value of the wrong kind or a value that the
//! field does not allow, or the fields contradict each other.

use crate::bencode::error::BertErrorTrace;
use crate::crypto::digest::DigestError;
use crate::files::fileattributes::AttributeError;
use vstd::prelude::*;

verus! {

/// The fields of a torrent, each under its key on the wire.
#[derive(Debug, Clone, Copy, PartialEq, Eq, Structural)]
pub enum Field {
    Announce,
    AnnounceList,
    CreatedBy,
    Comment,
    CreationDate,
    Encoding,
    Httpseeds,
    Info,
    Nodes,
    PieceLayers,
    PublisherUrl,
    Signatures,
    UrlList,
    Files,
    FileTree,
    Length,
    Md5sum,
    Name,
    Pieces,
    PieceLength,
    Private,
    RootHash,
    MetaVersion,
    SymlinkPath,
    Attr,
    PiecesRoot,
    Path,
    Sha1,
    Certificate,
    Signature,
    /// The whole input.
    Torrent,
}

/// The four kinds of Bencoded values.
#[derive(Debug, Clone, Copy, PartialEq, Eq, Structural)]
pub enum ValueKind {
    Int,
    Bytes,
    List,
    Dict,
}

/// The ways in which an info dictionary fails to say in exactly one way
/// which files it shares.
#[derive(Debug, Clone, Copy, PartialEq, Eq, Structural)]
pub enum AmbiguousFiles {
    /// `length` and `files` are both there.
    LengthAndFiles,
    /// `length` and `file tree` are both there.
    LengthAndFileTree,
    /// `files` and `file tree` are both there.
    FilesAndFileTree,
    /// None of `length`, `files` and `file tree` is there.
    NoFiles,
    /// `length`, `files` and `file tree` are all there.
    LengthFilesAndFileTree,
}

/// Why a URI is refused.
#[derive(Debug, Clone, Copy, PartialEq, Eq, Structural)]
pub enum UriError {
    /// The text is no URI.
    Invalid,
    /// The URI names no host: it is relative.
    Relative,
    /// The scheme is not among those that a torrent may name.
    InvalidScheme,
    /// The URI of a node names no port.
    MissingPort,
}

/// Why Bencode is no torrent.
#[derive(Debug, PartialEq, Eq)]
#[allow(inconsistent_fields)]
pub enum ParseTorrentError {
    /// The info dictionary does not say in exactly one way which files it
    /// shares.
    AmbiguousFiles(AmbiguousFiles),
    /// The bytes are no Bencode.
    Bencode(BertErrorTrace),
    /// A meta version below 2, or one that is no version at all.
    InvalidVersion(i64),
    /// A piece length that is too small or no power of two.
    PieceLength(u64),
    /// A field that must be there is not.
    MissingField(Field),
    /// The value of a field is of the wrong kind.
    InvalidType { field: Field, expected: ValueKind },
    /// The value of a field is of the right kind and not allowed.
    InvalidValue { field: Field },
    /// The value of a field has a length that the field does not allow.
    InvalidLength { field: Field, actual: usize },
    /// Text that is no UTF-8.
    InvalidText { field: Field },
    /// A key that the dictionary of `within` does not know, at the place
    /// `index` of that dictionary.
    UnknownField { within: Field, index: usize },
    /// A name that stands twice on one level of a file tree.
    DuplicateName,
    /// The attributes of a file name an attribute that is none.
    Attribute(AttributeError),
    /// A digest of the wrong length.
    Digest { field: Field, error: DigestError },
    /// A URI that a torrent may not name.
    Uri { field: Field, error: UriError },
    /// The info dictionary is that of no version.
    NoVariant,
}

/// The key of a field on the wire.
pub fn key(field: Field) -> (r: &'static str)
    ensures
        r@ == spec_key_text(field),
{
    match field {
        Field::Announce => "announce",
        Field::AnnounceList => "announce-list",
        Field::CreatedBy => "created by",
        Field::Comment => "comment",
        Field::CreationDate => "creation date",
        Field::Encoding => "encoding",
        Field::Httpseeds => "httpseeds",
        Field::Info => "info",
        Field::Nodes => "nodes",
        Field::PieceLayers => "piece layers",
        Field::PublisherUrl => "publisher-url",
        Field::Signatures => "signatures",
        Field::UrlList => "url-list",
        Field::Files => "files",
        Field::FileTree => "file tree",
        Field::Length => "length",
        Field::Md5sum => "md5sum",
        Field::Name => "name",
        Field::Pieces => "pieces",
        Field::PieceLength => "piece length",
        Field::Private => "private",
        Field::RootHash => "root hash",
        Field::MetaVersion => "meta version",
        Field::SymlinkPath => "symlink path",
        Field::Attr => "attr",
        Field::PiecesRoot => "pieces root",
        Field::Path => "path",
        Field::Sha1 => "sha1",
        Field::Certificate => "certificate",
        Field::Signature => "signature",
        Field::Torrent => "",
    }
}

/// The key of a field on the wire, as text.
pub open spec fn spec_key_text(field: Field) -> Seq<char> {
    match field {
        Field::Announce => "announce"@,
        Field::AnnounceList => "announce-list"@,
        Field::CreatedBy => "created by"@,
        Field::Comment => "comment"@,
        Field::CreationDate => "creation date"@,
        Field::Encoding => "encoding"@,
        Field::Httpseeds => "httpseeds"@,
        Field::Info => "info"@,
        Field::Nodes => "nodes"@,
        Field::PieceLayers => "piece layers"@,
        Field::PublisherUrl => "publisher-url"@,
        Field::Signatures => "signatures"@,
        Field::UrlList => "url-list"@,
        Field::Files => "files"@,
        Field::FileTree => "file tree"@,
        Field::Length => "length"@,
        Field::Md5sum => "md5sum"@,
        Field::Name => "name"@,
        Field::Pieces => "pieces"@,
        Field::PieceLength => "piece length"@,
        Field::Private => "private"@,
        Field::RootHash => "root hash"@,
        Field::MetaVersion => "meta version"@,
        Field::SymlinkPath => "symlink path"@,
        Field::Attr => "attr"@,
        Field::PiecesRoot => "pieces root"@,
        Field::Path => "path"@,
        Field::Sha1 => "sha1"@,
        Field::Certificate => "certificate"@,
        Field::Signature => "signature"@,
        Field::Torrent => ""@,
    }
}

/// The key of a field on the wire, as bytes.
pub open spec fn spec_key(field: Field) -> Seq<u8> {
    vstd::utf8::encode_utf8(spec_key_text(field))
}

} // verus!
