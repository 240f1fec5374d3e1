use ghd::github::Request;
use ghd::{Asset, Author, GithubAPIClient, Release};

fn gh_author(id: u32) -> Author {
    Author {
        id,
        login: "acme-bot".to_string(),
        node_id: "N1".to_string(),
        avatar_url: String::new(),
        gravatar_id: String::new(),
        url: String::new(),
        html_url: String::new(),
        followers_url: String::new(),
        following_url: String::new(),
        gists_url: String::new(),
        starred_url: String::new(),
        subscriptions_url: String::new(),
        organizations_url: String::new(),
        repos_url: String::new(),
        events_url: String::new(),
        received_events_url: String::new(),
        t: "Bot".to_string(),
        site_admin: false,
    }
}

fn gh_asset(name: &str) -> Asset {
    Asset {
        id: 11,
        url: format!("https://api.github.com/repos/acme/tool/releases/assets/{}", name),
        browser_download_url: format!("https://github.com/acme/tool/releases/download/v1.2.3/{}", name),
        node_id: "A1".to_string(),
        name: name.to_string(),
        label: None,
        state: "uploaded".to_string(),
        content_type: "application/gzip".to_string(),
        size: 1024,
        download_count: 3,
        created_at: "2024-01-01T00:00:00Z".to_string(),
        updated_at: "2024-01-02T00:00:00Z".to_string(),
        uploader: gh_author(7),
    }
}

fn gh_release(names: &[&str]) -> Release {
    Release {
        url: String::new(),
        html_url: String::new(),
        assets_url: String::new(),
        upload_url: String::new(),
        tarball_url: None,
        zipball_url: None,
        id: 99,
        node_id: "R1".to_string(),
        tag_name: "v1.2.3".to_string(),
        target_commitish: "main".to_string(),
        name: Some("Tool 1.2.3".to_string()),
        body: None,
        draft: false,
        prerelease: false,
        created_at: "2024-01-01T00:00:00Z".to_string(),
        published_at: "2024-01-02T03:04:05Z".to_string(),
        author: gh_author(7),
        assets: names.iter().map(|name| gh_asset(name)).collect(),
    }
}

#[test]
fn author_label_shows_the_number() {
    assert_eq!(gh_author(7).describe(), "<Author '7'>");
    assert_eq!(gh_author(0).describe(), "<Author '0'>");
    assert_eq!(gh_author(4294967295).describe(), "<Author '4294967295'>");
}

#[test]
fn asset_label_shows_the_name() {
    assert_eq!(gh_asset("tool-linux-x64.tar.gz").describe(), "<Asset 'tool-linux-x64.tar.gz'>");
}

#[test]
fn release_label_shows_tag_and_time() {
    assert_eq!(gh_release(&[]).describe(), "<Release 'v1.2.3' (2024-01-02T03:04:05Z)>");
}

#[test]
fn release_gives_its_assets_in_listed_order() {
    let release = gh_release(&["b.zip", "a.zip", "c.zip"]);
    let names: Vec<&str> = release.assets().iter().map(|asset| asset.name.as_str()).collect();
    assert_eq!(names, vec!["b.zip", "a.zip", "c.zip"]);
    assert_eq!(release.assets().len(), release.assets.len());
    let owned = release.into_assets();
    assert_eq!(owned, vec![gh_asset("b.zip"), gh_asset("a.zip"), gh_asset("c.zip")]);
}

#[test]
fn latest_release_request_names_owner_and_repository() {
    let client = GithubAPIClient::new("t0ken");
    assert_eq!(
        client.get_the_latest_release("acme", "tool"),
        Request {
            url: "https://api.github.com/repos/acme/tool/releases/latest".to_string(),
            accept: "application/vnd.github+json".to_string(),
            authorization: "Bearer t0ken".to_string(),
        }
    );
}

#[test]
fn download_request_asks_the_asset_address_for_raw_bytes() {
    let client = GithubAPIClient::new("t0ken");
    assert_eq!(
        client.download_asset(&gh_asset("tool-linux-x64.tar.gz")),
        Request {
            url: "https://github.com/acme/tool/releases/download/v1.2.3/tool-linux-x64.tar.gz"
                .to_string(),
            accept: "application/octet-stream".to_string(),
            authorization: "Bearer t0ken".to_string(),
        }
    );
}

#[test]
fn every_request_carries_the_credential() {
    let client = GithubAPIClient::new("");
    assert_eq!(client.get_the_latest_release("a", "b").authorization, "Bearer ");
    assert_eq!(client.download_asset(&gh_asset("x")).authorization, "Bearer ");
}
