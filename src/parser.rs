//! The data of a pixi manifest and of its lock file.

use vstd::prelude::*;

use std::collections::HashMap;

verus! {

/// A `pixi.toml` manifest.
#[derive(Debug)]
pub struct PixiManifest {
    pub project: ProjectMetadata,
    pub dependencies: HashMap<String, String>,
    pub pypi_dependencies: HashMap<String, String>,
}

/// The `[project]` table of a manifest.
#[derive(Debug)]
pub struct ProjectMetadata {
    pub name: String,
    pub channels: Vec<String>,
    pub platforms: Vec<String>,
}

/// A `pixi.lock` lock file.
#[derive(Debug)]
pub struct PixiLock {
    pub version: u32,
    pub environments: HashMap<String, Environment>,
    pub packages: Vec<LockedPackage>,
}

/// One environment of a lock file: its channels, package indexes and, per
/// platform, the packages locked for it.
#[derive(Debug)]
pub struct Environment {
    pub channels: Vec<Channel>,
    pub indexes: Vec<String>,
    pub packages: HashMap<String, Vec<PackageRef>>,
}

/// A channel of an environment.
#[derive(Debug)]
pub struct Channel {
    pub url: String,
}

/// A reference from an environment to a locked package.
#[derive(Debug)]
pub struct PackageRef {
    pub source: PackageSource,
}

/// Where a locked package comes from: a conda archive or a PyPI
/// distribution, by URL.
#[derive(Debug)]
pub enum PackageSource {
    Conda { conda: String },
    PyPI { pypi: String },
}

/// A package of a lock file.
#[derive(Debug)]
pub struct LockedPackage {
    pub source: PackageSource,
    pub name: Option<String>,
    pub version: Option<String>,
}

} // verus!
