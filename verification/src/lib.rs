//! Strongly typed reading and writing of BitTorrent metainfo: a Bencode codec
//! with positional error trails, fixed-width digests, validated URIs, the
//! version 1 and version 2 file listings and the torrent record built on them.
//!
//! Every function carries a contract which Verus proves; the few calls into
//! other crates stand behind small functions whose contracts are assumed, each
//! marked as such in its documentation.

pub mod bencode;
pub mod crypto;
pub mod dictionary;
pub mod error;
pub mod files;
pub mod hexadecimal;
pub mod keys;
pub mod metainfo;
pub mod pieces;
pub mod settings;
pub mod text;
pub mod torrent;
pub mod uri;

pub use pieces::PieceLength;
pub use pieces::Pieces;
pub use torrent::Torrent;
