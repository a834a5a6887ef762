//! The files that a torrent shares.
//!
//! A version 1 torrent lists its files flat, each with its whole path; a
//! version 2 torrent holds them as a tree, in which a directory is written
//! once.

pub mod depthfirst;
pub mod fileattributes;
pub mod filedisplayinfo;
pub mod filetree;
pub mod flatfile;
pub mod treecodec;

pub use fileattributes::FileAttribute;
pub use fileattributes::TorrentFileAttributes;
pub use filetree::FileTree;
pub use filetree::FileTreeEntry;
pub use filetree::FileTreeInfo;
pub use depthfirst::FileTreeDepthFirstIter;
pub use depthfirst::FileTreePathView;
pub use flatfile::FlatFile;
pub use flatfile::FlatFiles;
pub use flatfile::MetaV1FileRepr;
pub use flatfile::SharedFiles;
pub use filedisplayinfo::FileDisplayInfo;
pub use filedisplayinfo::FileDisplayInfoIter;
