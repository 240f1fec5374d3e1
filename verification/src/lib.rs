//! Keeps locally installed command-line tools in step with the latest
//! published release of their upstream repositories.
//!
//! The crate holds the decisions of one synchronisation: which release asset
//! to take, how a download is capped, where an archive is unpacked, how a
//! wrapped archive is flattened and which files are installed. Network and
//! file-system access belong to the caller, which hands in plain values and
//! carries out the steps that come back.

pub mod archive;
pub mod config;
pub mod disk;
pub mod download;
pub mod errors;
pub mod github;
pub mod hoist;
pub mod paths;
pub mod promote;
pub mod select;
pub mod sync;
pub mod text;
pub mod tree;

pub use config::{AppConfig, Package};
pub use errors::ErrorKind;
pub use github::{Asset, Author, GithubAPIClient, Release};
pub use sync::Downloader;
