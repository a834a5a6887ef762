//! URIs as a torrent names them: trackers, seeds, and the nodes of the
//! distributed hash table.

pub mod lists;
pub mod node;
pub mod uriwrapper;

pub use node::Node;
pub use uriwrapper::UriWrapper;
pub use uriwrapper::UrlWrapper;
