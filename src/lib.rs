//! Finds the dependencies of a pixi project that have newer versions, per
//! platform, and sorts the updates into those shared by every platform and
//! those specific to one.

pub mod conda;
pub mod lockfile;
pub mod outdated;
pub mod parser;
pub mod pixi;
pub mod pypi;
