use ghd::config::{config_file, default_bin_path, default_download_path};
use ghd::{AppConfig, Package};

#[test]
fn default_download_path_is_downloads_in_the_home_directory() {
    assert_eq!(default_download_path("/home/me"), "/home/me/Downloads");
    assert_eq!(default_download_path("/home/me/"), "/home/me/Downloads");
}

#[test]
fn default_bin_path_is_local_bin_in_the_home_directory() {
    assert_eq!(default_bin_path("/home/me"), "/home/me/.local/bin");
    assert_eq!(default_bin_path("/"), "/.local/bin");
}

#[test]
fn config_file_lies_below_the_home_directory() {
    assert_eq!(config_file("/home/me"), "/home/me/.config/ghd/config.toml");
}

#[test]
fn with_defaults_fills_in_what_was_left_out() {
    let packages = vec![Package {
        user: "acme".to_string(),
        repo: "tool".to_string(),
        name: "linux-x64.tar.gz".to_string(),
    }];
    let config = AppConfig::with_defaults("/home/me", "t0ken".to_string(), None, None, packages.clone());
    assert_eq!(
        config,
        AppConfig {
            github_pat: "t0ken".to_string(),
            download_path: "/home/me/Downloads".to_string(),
            bin_path: "/home/me/.local/bin".to_string(),
            packages,
        }
    );
}

#[test]
fn with_defaults_keeps_what_was_written() {
    let config = AppConfig::with_defaults(
        "/home/me",
        "t0ken".to_string(),
        Some("/tmp/dl".to_string()),
        Some("/opt/bin".to_string()),
        vec![],
    );
    assert_eq!(config.download_path, "/tmp/dl");
    assert_eq!(config.bin_path, "/opt/bin");
    assert_eq!(config.packages, vec![]);
    let mixed = AppConfig::with_defaults("/home/me", String::new(), None, Some("/opt/bin".to_string()), vec![]);
    assert_eq!(mixed.download_path, "/home/me/Downloads");
    assert_eq!(mixed.bin_path, "/opt/bin");
}
