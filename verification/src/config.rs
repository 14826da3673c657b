//! The global configuration: where prefixes live and which runtimes are the
//! defaults. Reading and writing the file itself is the caller's business;
//! the library works on the plain values.

use vstd::prelude::*;

verus! {

/// The global configuration, with one optional section per runner kind.
pub struct FloraConfig {
    pub wine: Option<FloraWineConfig>,
    pub proton: Option<FloraProtonConfig>,
}

pub struct FloraWineConfig {
    pub wine_prefix_location: String,
    pub default_wine_prefix: String,
    pub default_wine_runtime: Option<String>,
}

pub struct FloraProtonConfig {
    pub proton_prefix_location: String,
    pub default_proton_prefix: String,
    pub default_proton_runtime: String,
}

} // verus!
