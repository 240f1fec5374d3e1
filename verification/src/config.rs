//! What the user configures: the credential, the two directories and the
//! packages to follow.

use crate::paths::{join, joined};
use crate::text::followed_by;
use vstd::prelude::*;

verus! {

/// One repository to follow, and how to pick its asset.
#[derive(Debug, Clone, PartialEq, Eq)]
pub struct Package {
    /// The owner of the repository.
    pub user: String,
    /// The repository.
    pub repo: String,
    /// The end of the name of the asset to install.
    pub name: String,
}

/// The whole configuration.
#[derive(Debug, Clone, PartialEq, Eq)]
pub struct AppConfig {
    /// The credential presented to the release service.
    pub github_pat: String,
    /// The directory that receives archives and what is unpacked from them.
    pub download_path: String,
    /// The directory that executables are installed into.
    pub bin_path: String,
    /// The packages to synchronise.
    pub packages: Vec<Package>,
}

/// The downloads folder of the user whose home directory is `home`.
pub open spec fn default_download_dir(home: Seq<char>) -> Seq<char> {
    joined(home, "Downloads"@)
}

/// The folder for the user's own executables below `home`.
pub open spec fn default_bin_dir(home: Seq<char>) -> Seq<char> {
    joined(joined(home, ".local"@), "bin"@)
}

/// Where the downloads go when the configuration names no directory:
/// `Downloads` in the home directory.
pub fn default_download_path(home: &str) -> (path: String)
    ensures
        path@ == default_download_dir(home@),
{
    join(home, "Downloads")
}

/// Where executables go when the configuration names no directory:
/// `.local/bin` in the home directory.
pub fn default_bin_path(home: &str) -> (path: String)
    ensures
        path@ == default_bin_dir(home@),
{
    let local = join(home, ".local");
    join(local.as_str(), "bin")
}

/// The file that holds the configuration of the user whose home directory
/// is `home`.
pub fn config_file(home: &str) -> (path: String)
    ensures
        path@ == home@ + "/.config/ghd/config.toml"@,
{
    followed_by(home, "/.config/ghd/config.toml")
}

impl AppConfig {
    /// The configuration made of what the user wrote, with each directory
    /// that was left out replaced by its default below `home`.
    pub fn with_defaults(
        home: &str,
        github_pat: String,
        download_path: Option<String>,
        bin_path: Option<String>,
        packages: Vec<Package>,
    ) -> (config: AppConfig)
        ensures
            config.github_pat == github_pat,
            config.packages == packages,
            config.download_path@ == match download_path {
                Some(path) => path@,
                None => default_download_dir(home@),
            },
            config.bin_path@ == match bin_path {
                Some(path) => path@,
                None => default_bin_dir(home@),
            },
    {
        let download_path = match download_path {
            Some(path) => path,
            None => default_download_path(home),
        };
        let bin_path = match bin_path {
            Some(path) => path,
            None => default_bin_path(home),
        };
        AppConfig { github_pat, download_path, bin_path, packages }
    }
}

} // verus!
