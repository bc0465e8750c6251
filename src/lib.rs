//! Assembly and exact size prediction of NUS3 audio containers built from a
//! directory of loose audio files, and the catalog that maps resource keys to
//! the manifests of such directories.

pub mod manifest;
pub mod estimate;
pub mod container;
pub mod path;
pub mod catalog;
