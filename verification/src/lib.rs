//! Management of Windows-compatibility prefixes ("seeds") and the desktop
//! entries that launch applications inside them.
//!
//! The heart of the crate is the translation between Windows path syntax and
//! the host filesystem layout of a compatibility prefix, the classification
//! of launch targets by their binary contents, and the extraction of icon
//! images from icon containers and executable resources.

/// One launchable app and the options that describe it
pub mod app;

/// Byte-string helpers shared by the parsers and path builders
pub mod bytes;

/// The command-line surface as plain data
pub mod cli;

/// The global configuration values
pub mod config;

/// The directory layout everything lives in
pub mod dirs;

/// The library's own error type
pub mod errors;

/// Decoding icon containers and selecting the widest image
pub mod ico;

/// Classifying launch targets by their binary contents
pub mod icon;

/// The executable resource walk that finds embedded icons
pub mod pe;

/// Requests the caller hands to the manager
pub mod requests;

/// The icon-resolution steps and their fallback rule
pub mod resolve;

/// Answers handed back to the caller
pub mod responses;

/// Resolving the environment a seed launches in
pub mod runners;

/// One seed and its list of apps
pub mod seed;

/// The Shell Link binary structure
pub mod shell_link;

/// Path-string helpers for the configuration layer
pub mod strpath;

/// Translation between Windows paths and host paths under a prefix
pub mod winepath;
