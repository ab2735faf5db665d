use pixi_outdated::lockfile::{select_platforms, LockedEnvironment, PlatformsError};
use pixi_outdated::pypi::pypi_json_url;

fn environments() -> Vec<LockedEnvironment> {
    vec![
        LockedEnvironment {
            name: "default".to_string(),
            platforms: vec!["linux-64".to_string(), "osx-arm64".to_string()],
        },
        LockedEnvironment {
            name: "empty".to_string(),
            platforms: Vec::new(),
        },
    ]
}

#[test]
fn select_default_environment() {
    let platforms = select_platforms(&environments(), None).unwrap();
    assert_eq!(
        platforms,
        vec!["linux-64".to_string(), "osx-arm64".to_string()]
    );
}

#[test]
fn select_missing_environment() {
    let err = select_platforms(&environments(), Some("nonexistent")).unwrap_err();
    assert!(matches!(
        err,
        PlatformsError::EnvironmentNotFound { ref name } if name == "nonexistent"
    ));
    assert!(err
        .message()
        .contains("Environment 'nonexistent' not found"));
}

#[test]
fn select_environment_without_platforms() {
    let err = select_platforms(&environments(), Some("empty")).unwrap_err();
    assert_eq!(
        err.message(),
        "No platforms found for environment 'empty'"
    );
}

#[test]
fn pypi_url_of_package() {
    assert_eq!(
        pypi_json_url("requests"),
        "https://pypi.org/pypi/requests/json"
    );
}
