//! The importer's options, as the command line gives them.

use std::path::PathBuf;

use vstd::prelude::*;
use crate::platform::Platform;

verus! {

/// File-system paths are carried through untouched; nothing here reads them.
#[verifier::external_type_specification]
#[verifier::external_body]
pub struct ExPathBuf(PathBuf);

/// `PathBuf::clone` returns a copy of the path: the same path value.
pub assume_specification[ <PathBuf as Clone>::clone ](p: &PathBuf) -> (res: PathBuf)
    ensures
        res == *p,
;

/// Options of one import run.
#[derive(Debug)]
pub struct Opts {
    /// Turn the app to debug mode (logs stuff)
    pub debug: bool,
    /// The platform to import
    pub platform: Platform,
    /// The playlist to import to
    pub playlist: String,
    /// The location of the Tidal file to import
    pub tidal_file: Option<PathBuf>,
    /// The location of the raw CSV file to import
    pub raw_file: Option<PathBuf>,
    /// The YouTube playlist to import
    pub youtube_playlist: Option<String>,
}

} // verus!
