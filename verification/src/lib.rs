//! Core of a forge-backed tool installer: release listing, version-candidate
//! resolution, platform asset picking, and the install bookkeeping around
//! them, specified and verified over mathematical models of the data.

pub mod backend;
pub mod cache;
pub mod glob;
pub mod install;
pub mod options;
pub mod pagination;
pub mod picker;
pub mod release;
pub mod resolve;
pub mod text;
pub mod trusted;
pub mod version;
