//! Releases as the hosting service describes them, and the requests that
//! ask for them.

use crate::text::{decimal, decimal_string, followed_by};
use vstd::prelude::*;

verus! {

/// The account that published a release or uploaded an asset.
#[derive(Debug, Clone, PartialEq, Eq)]
pub struct Author {
    pub id: u32,
    pub login: String,
    pub node_id: String,
    pub avatar_url: String,
    pub gravatar_id: String,
    pub url: String,
    pub html_url: String,
    pub followers_url: String,
    pub following_url: String,
    pub gists_url: String,
    pub starred_url: String,
    pub subscriptions_url: String,
    pub organizations_url: String,
    pub repos_url: String,
    pub events_url: String,
    pub received_events_url: String,
    pub t: String,
    pub site_admin: bool,
}

/// One file attached to a release.
#[derive(Debug, Clone, PartialEq, Eq)]
pub struct Asset {
    pub id: u32,
    pub url: String,
    pub browser_download_url: String,
    pub node_id: String,
    pub name: String,
    pub label: Option<String>,
    pub state: String,
    pub content_type: String,
    pub size: u64,
    pub download_count: u64,
    pub created_at: String,
    pub updated_at: String,
    pub uploader: Author,
}

/// The latest published release of a repository.
#[derive(Debug, Clone, PartialEq, Eq)]
pub struct Release {
    pub url: String,
    pub html_url: String,
    pub assets_url: String,
    pub upload_url: String,
    pub tarball_url: Option<String>,
    pub zipball_url: Option<String>,
    pub id: u32,
    pub node_id: String,
    pub tag_name: String,
    pub target_commitish: String,
    pub name: Option<String>,
    pub body: Option<String>,
    pub draft: bool,
    pub prerelease: bool,
    pub created_at: String,
    pub published_at: String,
    pub author: Author,
    pub assets: Vec<Asset>,
}

impl Author {
    /// A short label for logs: the account's number between `<Author '`
    /// and `'>`.
    pub fn describe(&self) -> (label: String)
        ensures
            label@ == "<Author '"@ + decimal(self.id as nat) + "'>"@,
    {
        let mut label = followed_by("<Author '", decimal_string(self.id as u64).as_str());
        label.append("'>");
        label
    }
}

impl Asset {
    /// A short label for logs: the asset's name between `<Asset '` and
    /// `'>`.
    pub fn describe(&self) -> (label: String)
        ensures
            label@ == "<Asset '"@ + self.name@ + "'>"@,
    {
        let mut label = followed_by("<Asset '", self.name.as_str());
        label.append("'>");
        label
    }
}

impl Release {
    /// A short label for logs: the tag and, in brackets, the time of
    /// publication.
    pub fn describe(&self) -> (label: String)
        ensures
            label@ == "<Release '"@ + self.tag_name@ + "' ("@ + self.published_at@ + ")>"@,
    {
        let mut label = followed_by("<Release '", self.tag_name.as_str());
        label.append("' (");
        label.append(self.published_at.as_str());
        label.append(")>");
        label
    }

    /// The assets of the release, in the order in which it lists them.
    pub fn assets(&self) -> (assets: &Vec<Asset>)
        ensures
            assets == self.assets,
    {
        &self.assets
    }

    /// Gives up the release for its assets, in the order in which it lists
    /// them.
    pub fn into_assets(self) -> (assets: Vec<Asset>)
        ensures
            assets == self.assets,
    {
        self.assets
    }
}

/// A `GET` request, ready to be sent.
#[derive(Debug, Clone, PartialEq, Eq)]
pub struct Request {
    /// The address to ask.
    pub url: String,
    /// The value of the header `Accept`.
    pub accept: String,
    /// The value of the header `Authorization`.
    pub authorization: String,
}

/// A `Request` with its texts as character sequences.
pub struct RequestView {
    pub url: Seq<char>,
    pub accept: Seq<char>,
    pub authorization: Seq<char>,
}

impl View for Request {
    type V = RequestView;

    open spec fn view(&self) -> RequestView {
        RequestView { url: self.url@, accept: self.accept@, authorization: self.authorization@ }
    }
}

/// The part of the service's address that names the latest release of the
/// repository `repo` of `user`.
pub open spec fn latest_release_path(user: Seq<char>, repo: Seq<char>) -> Seq<char> {
    "/repos/"@ + user + "/"@ + repo + "/releases/latest"@
}

/// Builds the requests to the release service. It holds the service's
/// address and the credential that every request carries.
#[derive(Debug, Clone, PartialEq, Eq)]
pub struct GithubAPIClient {
    base_url: String,
    bearer: String,
}

impl GithubAPIClient {
    /// The address of the service, which every path is appended to.
    pub closed spec fn base_url(&self) -> Seq<char> {
        self.base_url@
    }

    /// The value of the header `Authorization` of every request.
    pub closed spec fn bearer(&self) -> Seq<char> {
        self.bearer@
    }

    /// A client of the public service that presents `access_token` as a
    /// bearer credential.
    pub fn new(access_token: &str) -> (client: Self)
        ensures
            client.base_url() == "https://api.github.com"@,
            client.bearer() == "Bearer "@ + access_token@,
    {
        Self {
            base_url: "https://api.github.com".to_string(),
            bearer: followed_by("Bearer ", access_token),
        }
    }

    /// The request for the service's own document at `path`.
    fn get(&self, path: &str) -> (request: Request)
        ensures
            request@ == (RequestView {
                url: self.base_url() + path@,
                accept: "application/vnd.github+json"@,
                authorization: self.bearer(),
            }),
    {
        Request {
            url: followed_by(self.base_url.as_str(), path),
            accept: "application/vnd.github+json".to_string(),
            authorization: self.bearer.clone(),
        }
    }

    /// The request for the bytes behind `url`.
    fn download(&self, url: &str) -> (request: Request)
        ensures
            request@ == (RequestView {
                url: url@,
                accept: "application/octet-stream"@,
                authorization: self.bearer(),
            }),
    {
        Request {
            url: url.to_string(),
            accept: "application/octet-stream".to_string(),
            authorization: self.bearer.clone(),
        }
    }

    /// The request for the latest release of the repository `repo` of
    /// `user`: the service's address followed by
    /// `/repos/{user}/{repo}/releases/latest`, asking for the service's
    /// JSON and carrying the credential.
    pub fn get_the_latest_release(&self, user: &str, repo: &str) -> (request: Request)
        ensures
            request@ == (RequestView {
                url: self.base_url() + latest_release_path(user@, repo@),
                accept: "application/vnd.github+json"@,
                authorization: self.bearer(),
            }),
    {
        let mut path = followed_by("/repos/", user);
        path.append("/");
        path.append(repo);
        path.append("/releases/latest");
        self.get(path.as_str())
    }

    /// The request for the bytes of `asset`: its download address, asking
    /// for raw bytes and carrying the credential.
    pub fn download_asset(&self, asset: &Asset) -> (request: Request)
        ensures
            request@ == (RequestView {
                url: asset.browser_download_url@,
                accept: "application/octet-stream"@,
                authorization: self.bearer(),
            }),
    {
        self.download(asset.browser_download_url.as_str())
    }
}

} // verus!
