//! Raw lists: records of an artist and a track, read from a CSV file.

use vstd::prelude::*;
use std::path::PathBuf;

use crate::cli::Opts;
use crate::text::{lowercase, to_lower};

verus! {

/// One line of a raw list.
#[derive(Debug, Clone)]
pub struct RawRecord {
    pub artist: String,
    pub track: String,
}

/// The records of a raw list, in file order.
pub struct Raw {
    pub queries: Vec<RawRecord>,
}

impl Raw {
    /// A raw list holding exactly the given records.
    pub fn new_from_records(records: Vec<RawRecord>) -> (res: Raw)
        ensures
            res.queries@ == records@,
    {
        Raw { queries: records }
    }
}

/// Reads the queries of a raw list.
#[derive(Default, Debug, Clone)]
pub struct RawProvider {
    pub playlist: String,
    /// The path of the CSV file.
    pub file: PathBuf,
}

impl RawProvider {
    /// A provider for the playlist and raw file that the options name.
    pub fn new(opts: &Opts) -> (res: RawProvider)
        requires
            opts.raw_file is Some,
        ensures
            res.playlist@ == opts.playlist@,
            res.file == opts.raw_file->0,
    {
        RawProvider {
            playlist: opts.playlist.clone(),
            file: opts.raw_file.as_ref().unwrap().clone(),
        }
    }

    /// One (artist, track) query per record, both lower-cased.
    pub fn convert_to_query(&self, item: Raw) -> (res: Vec<(String, String)>)
        ensures
            res.len() == item.queries.len(),
            forall|i: int|
                0 <= i < res.len() ==> {
                    &&& (#[trigger] res@[i]).0@ == lowercase(item.queries@[i].artist@)
                    &&& res@[i].1@ == lowercase(item.queries@[i].track@)
                },
    {
        let mut out: Vec<(String, String)> = Vec::new();
        let mut i: usize = 0;
        while i < item.queries.len()
            invariant
                i <= item.queries.len(),
                out.len() == i,
                forall|k: int|
                    0 <= k < i ==> {
                        &&& (#[trigger] out@[k]).0@ == lowercase(item.queries@[k].artist@)
                        &&& out@[k].1@ == lowercase(item.queries@[k].track@)
                    },
            decreases item.queries.len() - i,
        {
            let record = &item.queries[i];
            out.push((to_lower(record.artist.as_str()), to_lower(record.track.as_str())));
            i = i + 1;
        }
        out
    }
}

} // verus!
