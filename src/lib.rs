//! Resolves locally built NuGet packages against an ordered list of package
//! repositories: which repository publishes each package version, and at which
//! download address, with per-repository caching of version indexes.

pub mod config;
pub mod error;
pub mod hash;
pub mod nuget;
pub mod resolve;
pub mod text;
pub mod version;
