//! Digests as a torrent holds them, and the hashing of an info dictionary.

pub mod calculateinfohash;
pub mod digest;
pub mod signature;

pub use digest::Digest;
pub use digest::DigestError;
pub use digest::Md5;
pub use digest::Sha1;
pub use digest::Sha1Hash;
pub use digest::Sha2;
pub use digest::Sha256;
pub use signature::SignInfo;
pub use signature::Signature;
