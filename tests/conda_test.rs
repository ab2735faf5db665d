use pixi_outdated::conda::{extract_channel_url, newest_version, query_subdirs};

#[test]
fn test_extract_channel_url_valid() {
    let source = "https://conda.anaconda.org/conda-forge/linux-64/python-3.12.0-h1234567_0.conda";
    let channel = extract_channel_url(source);
    assert_eq!(
        channel,
        Some("https://conda.anaconda.org/conda-forge".to_string())
    );
}

#[test]
fn test_extract_channel_url_different_host() {
    let source = "https://repo.prefix.dev/channel-name/osx-arm64/package.conda";
    let channel = extract_channel_url(source);
    assert_eq!(
        channel,
        Some("https://repo.prefix.dev/channel-name".to_string())
    );
}

#[test]
fn test_extract_channel_url_no_path() {
    let source = "https://conda.anaconda.org/";
    let channel = extract_channel_url(source);
    assert_eq!(channel, Some("https://conda.anaconda.org/".to_string()));
}

#[test]
fn test_extract_channel_url_invalid_url() {
    let source = "not-a-valid-url";
    let channel = extract_channel_url(source);
    assert_eq!(channel, None);
}

#[test]
fn test_extract_channel_url_file_path() {
    let source = "/local/path/to/package.conda";
    let channel = extract_channel_url(source);
    assert_eq!(channel, None);
}

#[test]
fn extract_channel_url_without_host() {
    assert_eq!(extract_channel_url("data:text/plain,Stuff"), None);
}

#[test]
fn newest_version_orders_by_conda_rules() {
    let versions = vec!["1.9".to_string(), "1.10".to_string(), "1.2".to_string()];
    assert_eq!(newest_version(&versions), Some("1.10".to_string()));
}

#[test]
fn newest_version_keeps_first_of_equals() {
    let versions = vec!["2.0".to_string(), "1.0".to_string(), "2.0.0".to_string()];
    assert_eq!(newest_version(&versions), Some("2.0".to_string()));
}

#[test]
fn newest_version_of_nothing() {
    let versions: Vec<String> = Vec::new();
    assert_eq!(newest_version(&versions), None);
}

#[test]
fn query_subdirs_puts_noarch_first() {
    let platforms = vec!["linux-64".to_string(), "osx-arm64".to_string()];
    assert_eq!(
        query_subdirs(&platforms),
        vec![
            "noarch".to_string(),
            "linux-64".to_string(),
            "osx-arm64".to_string()
        ]
    );
}
