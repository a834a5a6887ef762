//! The info dictionary of a torrent, in its three versions.

pub mod boolint;
pub mod encode;
pub mod hybrid;
pub mod infohash;
pub mod metav1;
pub mod metav2;
pub mod resolve;

pub use hybrid::Hybrid;
pub use metav1::MetaV1;
pub use metav2::MetaV2;
pub use resolve::Info;
pub use resolve::MetaInfo;
pub use infohash::InfoHashAny;
pub use infohash::InfoHashVersioned;
