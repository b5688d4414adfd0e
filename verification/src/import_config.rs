//! Configuration values read from the renderer's TOML config file.
//!
//! The file is read and deserialized by the driver; the plain values it
//! carries are held in these types, which the rest of the crate can speak
//! about.

use vstd::prelude::*;

verus! {

/// The `[config]` section of the config file.
pub struct Config {
    pub ip: String,
    pub port: u16,
}

/// Top level of the config file.
pub struct Data {
    pub config: Config,
}

} // verus!
