use std::collections::HashMap;

use pixi_outdated::outdated::{
    build_report, coalesce, diff_platform, package_key, plan_queries, platform_updates,
    pypi_lookup_result, LookupFailure, LookupResult, PackageKey, PackageUpdate, PlatformPackages,
    PlatformUpdates, VersionCache,
};
use pixi_outdated::pixi::{PackageKind, PixiPackage};

const FORGE: &str = "https://conda.anaconda.org/conda-forge/linux-64/pkg.conda";

fn conda(name: &str, version: &str, source: Option<&str>) -> PixiPackage {
    PixiPackage {
        name: name.to_string(),
        version: version.to_string(),
        build: None,
        size_bytes: None,
        kind: PackageKind::Conda,
        source: source.map(|s| s.to_string()),
        is_explicit: true,
    }
}

fn pypi(name: &str, version: &str) -> PixiPackage {
    PixiPackage {
        name: name.to_string(),
        version: version.to_string(),
        build: None,
        size_bytes: None,
        kind: PackageKind::Pypi,
        source: None,
        is_explicit: true,
    }
}

fn update(name: &str, installed: &str, latest: &str) -> PackageUpdate {
    PackageUpdate {
        name: name.to_string(),
        installed_version: installed.to_string(),
        latest_version: latest.to_string(),
    }
}

fn on(platform: &str, packages: Vec<PixiPackage>) -> PlatformPackages {
    PlatformPackages {
        platform: platform.to_string(),
        packages,
    }
}

fn updates_on(platform: &str, updates: Vec<PackageUpdate>) -> PlatformUpdates {
    PlatformUpdates {
        platform: platform.to_string(),
        updates,
    }
}

fn found(v: &str) -> LookupResult {
    Ok(Some(v.to_string()))
}

fn failed(message: &str) -> LookupResult {
    Err(LookupFailure {
        message: message.to_string(),
    })
}

fn platforms(names: &[&str]) -> Vec<String> {
    names.iter().map(|s| s.to_string()).collect()
}

#[test]
fn test_package_key_uniqueness() {

    let mut map: HashMap<PackageKey, String> = HashMap::new();

    let key1 = PackageKey {
        name: "python".to_string(),
        channel: Some("https://conda.anaconda.org/conda-forge/".to_string()),
        kind: PackageKind::Conda,
    };
    let key2 = PackageKey {
        name: "python".to_string(),
        channel: Some("https://conda.anaconda.org/conda-forge/".to_string()),
        kind: PackageKind::Conda,
    };

    map.insert(key1, "3.12.0".to_string());
    map.insert(key2, "3.12.1".to_string());

    assert_eq!(map.len(), 1);
    assert_eq!(map.values().next().unwrap(), "3.12.1");

    let key3 = PackageKey {
        name: "python".to_string(),
        channel: Some("https://conda.anaconda.org/main/".to_string()),
        kind: PackageKind::Conda,
    };
    map.insert(key3, "3.11.0".to_string());
    assert_eq!(map.len(), 2);

    let key4 = PackageKey {
        name: "python".to_string(),
        channel: None,
        kind: PackageKind::Pypi,
    };
    map.insert(key4, "3.13.0".to_string());
    assert_eq!(map.len(), 3);
}

#[test]
fn package_key_reads_the_channel() {
    let key = package_key(&conda("python", "3.12.0", Some(FORGE)));
    assert_eq!(key.name, "python");
    assert_eq!(
        key.channel,
        Some("https://conda.anaconda.org/conda-forge".to_string())
    );
    assert_eq!(key.kind, PackageKind::Conda);
}

#[test]
fn plan_has_one_entry_per_identity() {
    let input = vec![
        on(
            "linux-64",
            vec![
                conda("python", "3.12.0", Some(FORGE)),
                conda("icu", "73.1", Some(FORGE)),
                pypi("requests", "2.31.0"),
            ],
        ),
        on(
            "osx-arm64",
            vec![
                conda("python", "3.12.1", Some(FORGE)),
                pypi("requests", "2.31.0"),
                pypi("python", "3.12.0"),
            ],
        ),
    ];
    let plan = plan_queries(&input);
    // python (conda), icu, requests, python (pypi)
    assert_eq!(plan.entries.len(), 4);
    assert_eq!(plan.entries[0].0.name, "python");
    assert_eq!(plan.entries[0].1, "3.12.0");
    assert_eq!(plan.entries[3].0.kind, PackageKind::Pypi);

    let lookups = plan.lookup_keys();
    assert_eq!(lookups.len(), 4);
    for (i, a) in lookups.iter().enumerate() {
        for b in lookups.iter().skip(i + 1) {
            assert!(a != b);
        }
    }
}

#[test]
fn diff_reports_a_newer_version() {
    let packages = vec![conda("x", "1.0.0", Some(FORGE))];
    let mut cache = VersionCache::new();
    cache.insert(package_key(&packages[0]), found("2.0.0"));
    assert_eq!(
        diff_platform(&packages, &cache),
        vec![update("x", "1.0.0", "2.0.0")]
    );
}

#[test]
fn diff_skips_an_equal_version() {
    let packages = vec![conda("x", "1.0.0", Some(FORGE))];
    let mut cache = VersionCache::new();
    cache.insert(package_key(&packages[0]), found("1.0.0"));
    assert!(diff_platform(&packages, &cache).is_empty());
}

#[test]
fn diff_keeps_package_order_and_skips_missing() {
    let packages = vec![
        pypi("b", "1"),
        pypi("none", "1"),
        pypi("unknown", "1"),
        pypi("a", "1"),
    ];
    let mut cache = VersionCache::new();
    cache.insert(package_key(&packages[0]), found("2"));
    cache.insert(package_key(&packages[1]), Ok(None));
    cache.insert(package_key(&packages[3]), found("3"));
    assert_eq!(
        diff_platform(&packages, &cache),
        vec![update("b", "1", "2"), update("a", "1", "3")]
    );
}

#[test]
fn coalesce_common_and_specific() {
    let updates = vec![
        updates_on(
            "linux-64",
            vec![
                update("numpy", "1.26.0", "1.26.4"),
                update("icu", "73.1", "73.2"),
            ],
        ),
        updates_on("osx-arm64", vec![update("numpy", "1.26.0", "1.26.4")]),
    ];
    let report = coalesce(&updates, &platforms(&["linux-64", "osx-arm64"]));
    assert_eq!(
        report.common_updates,
        vec![update("numpy", "1.26.0", "1.26.4")]
    );
    assert_eq!(
        report.per_platform,
        vec![updates_on("linux-64", vec![update("icu", "73.1", "73.2")])]
    );
}

#[test]
fn coalesce_needs_the_same_triple() {
    let updates = vec![
        updates_on("linux-64", vec![update("numpy", "1.26.0", "1.26.4")]),
        updates_on("win-64", vec![update("numpy", "1.25.0", "1.26.4")]),
    ];
    let report = coalesce(&updates, &platforms(&["linux-64", "win-64"]));
    assert!(report.common_updates.is_empty());
    assert_eq!(report.per_platform, updates);
}

#[test]
fn single_platform_passes_through() {
    let updates = vec![
        updates_on("linux-64", vec![update("numpy", "1.26.0", "1.26.4")]),
        updates_on("osx-arm64", Vec::new()),
    ];
    let report = coalesce(&updates, &platforms(&["linux-64"]));
    assert!(report.common_updates.is_empty());
    assert_eq!(report.per_platform, updates);
}

#[test]
fn one_reporting_platform_has_no_common_updates() {
    let updates = vec![updates_on(
        "linux-64",
        vec![update("numpy", "1.26.0", "1.26.4")],
    )];
    let report = coalesce(&updates, &platforms(&["linux-64", "osx-arm64"]));
    assert!(report.common_updates.is_empty());
    assert_eq!(report.per_platform, updates);
}

#[test]
fn coalesce_of_nothing() {
    let report = coalesce(&Vec::new(), &platforms(&["linux-64", "osx-arm64"]));
    assert!(report.common_updates.is_empty());
    assert!(report.per_platform.is_empty());
}

#[test]
fn failed_lookup_is_isolated() {
    let y = pypi("y", "1.0");
    let z = pypi("z", "1.0");
    let mut cache = VersionCache::new();
    cache.insert(package_key(&y), failed("network down"));
    cache.insert(package_key(&z), found("2.0"));
    assert!(matches!(cache.get(&package_key(&y)), Some(Err(_))));
    assert!(matches!(cache.get(&package_key(&z)), Some(Ok(Some(_)))));
    let packages = vec![y, z];
    assert_eq!(
        diff_platform(&packages, &cache),
        vec![update("z", "1.0", "2.0")]
    );
}

#[test]
fn cache_slots_are_written_once() {
    let key = package_key(&pypi("z", "1.0"));
    let mut cache = VersionCache::new();
    cache.insert(key.clone(), found("2.0"));
    cache.insert(key.clone(), failed("late"));
    assert_eq!(cache.get(&key), Some(&found("2.0")));
    assert_eq!(cache.entries.len(), 1);
}

#[test]
fn pypi_result_is_normalized() {
    assert_eq!(pypi_lookup_result(Ok("2.0".to_string())), found("2.0"));
    assert_eq!(
        pypi_lookup_result(Err(LookupFailure {
            message: "gone".to_string()
        })),
        failed("gone")
    );
}

#[test]
fn rerun_gives_the_same_report() {
    let input = vec![
        on(
            "linux-64",
            vec![
                conda("numpy", "1.26.0", Some(FORGE)),
                conda("icu", "73.1", Some(FORGE)),
            ],
        ),
        on("osx-arm64", vec![conda("numpy", "1.26.0", Some(FORGE))]),
    ];
    let mut cache = VersionCache::new();
    cache.insert(package_key(&input[0].packages[0]), found("1.26.4"));
    cache.insert(package_key(&input[0].packages[1]), found("73.2"));
    let checked = platforms(&["linux-64", "osx-arm64"]);
    let first = build_report(&input, &cache, &checked);
    let second = build_report(&input, &cache, &checked);
    assert_eq!(first, second);
    assert_eq!(
        first.common_updates,
        vec![update("numpy", "1.26.0", "1.26.4")]
    );
    assert_eq!(
        first.per_platform,
        vec![updates_on("linux-64", vec![update("icu", "73.1", "73.2")])]
    );
}

#[test]
fn conda_without_channel_is_never_looked_up() {
    let input = vec![on(
        "linux-64",
        vec![
            conda("local", "1.0", None),
            conda("odd", "1.0", Some("/local/path/odd.conda")),
            conda("numpy", "1.26.0", Some(FORGE)),
        ],
    )];
    let plan = plan_queries(&input);
    assert_eq!(plan.entries.len(), 3);
    let lookups = plan.lookup_keys();
    assert_eq!(lookups.len(), 1);
    assert_eq!(lookups[0].name, "numpy");

    let mut cache = VersionCache::new();
    for key in lookups {
        cache.insert(key, found("9.9"));
    }
    let updates = platform_updates(&input, &cache);
    assert_eq!(
        updates,
        vec![updates_on(
            "linux-64",
            vec![update("numpy", "1.26.0", "9.9")]
        )]
    );
}
