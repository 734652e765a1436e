//! The streaming platforms an import can read from.

use vstd::prelude::*;

verus! {

/// A platform whose export the importer reads.
#[derive(Debug, Clone, Copy, PartialEq, Eq, Structural)]
pub enum Platform {
    TIDAL,
    NONE,
    RAW,
}

/// A platform name that no platform answers to.
#[derive(Debug, Clone, Copy, PartialEq, Eq, Structural)]
pub struct UnknownPlatform;

/// The platform that a command-line name selects, if any: `tidal` and `raw`
/// are understood, exactly as written.
pub open spec fn platform_named(name: Seq<char>) -> Option<Platform> {
    if name == "tidal"@ {
        Some(Platform::TIDAL)
    } else if name == "raw"@ {
        Some(Platform::RAW)
    } else {
        None
    }
}

impl UnknownPlatform {
    /// The text that reports the refused name.
    pub fn message(&self) -> (res: String)
        ensures
            res@ == "Could not parse a platform"@,
    {
        String::from_str("Could not parse a platform")
    }
}

impl Platform {
    /// Parses a platform name; any name but `tidal` and `raw` is refused.
    pub fn from_str(day: &str) -> (res: Result<Platform, UnknownPlatform>)
        ensures
            match res {
                Ok(p) => platform_named(day@) == Some(p),
                Err(_) => platform_named(day@) is None,
            },
            !(res matches Ok(Platform::NONE)),
    {
        let name = String::from_str(day);
        if name == String::from_str("tidal") {
            Ok(Platform::TIDAL)
        } else if name == String::from_str("raw") {
            Ok(Platform::RAW)
        } else {
            Err(UnknownPlatform)
        }
    }
}

} // verus!
