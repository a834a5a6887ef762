//! The Bencode grammar: integers, byte strings, and the trail of errors that a
//! failed decode leaves behind.

pub mod big;
pub mod bytes;
pub mod encode;
pub mod error;
pub mod integer;
pub mod laws;
pub mod number;
pub mod value;

pub use error::BertError;
pub use error::BertErrorKind;
pub use error::BertErrorTrace;
pub use integer::integer;
pub use bytes::bytes;
pub use bytes::bytes_str;
