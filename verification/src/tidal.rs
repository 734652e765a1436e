//! Tidal playlist exports, and the queries read from their tracks.

use vstd::prelude::*;
use std::path::PathBuf;

use crate::cli::Opts;
use crate::text::{
    join_with_spaces, join_words, lemma_join_holds_each_word, lowercase, stands_at, stands_in,
    texts, to_lower,
};

verus! {

/// A Tidal playlist export.
#[derive(Default, Debug, Clone, PartialEq)]
pub struct Tidal {
    pub limit: i64,
    pub offset: i64,
    pub total_number_of_items: i64,
    pub items: Vec<Track>,
}

/// One entry of an export.
#[derive(Default, Debug, Clone, PartialEq)]
pub struct Track {
    pub item: TrackDetails,
    pub type_field: String,
}

/// What an export says of a track (its text, number and flag fields).
#[derive(Default, Debug, Clone, PartialEq)]
pub struct TrackDetails {
    pub id: i64,
    pub title: String,
    pub duration: i64,
    pub allow_streaming: bool,
    pub stream_ready: bool,
    pub stream_start_date: String,
    pub premium_streaming_only: bool,
    pub track_number: i64,
    pub volume_number: i64,
    pub version: Option<String>,
    pub popularity: i64,
    pub copyright: String,
    pub url: String,
    pub isrc: String,
    pub editable: bool,
    pub explicit: bool,
    pub audio_quality: String,
    pub audio_modes: Vec<String>,
    pub artist: Artist,
    pub artists: Vec<Artist2>,
    pub album: Album,
    pub mixes: Mixes,
    pub date_added: String,
    pub index: i64,
    pub item_uuid: String,
}

/// The main artist of a track.
#[derive(Default, Debug, Clone, PartialEq)]
pub struct Artist {
    pub id: i64,
    pub name: String,
    pub type_field: String,
}

/// One of the artists of a track.
#[derive(Default, Debug, Clone, PartialEq)]
pub struct Artist2 {
    pub id: i64,
    pub name: String,
    pub type_field: String,
}

#[derive(Default, Debug, Clone, PartialEq)]
pub struct Album {
    pub id: i64,
    pub title: String,
    pub cover: Option<String>,
    pub release_date: String,
}

#[derive(Default, Debug, Clone, PartialEq)]
pub struct Mixes {
    pub track_mix: Option<String>,
    pub master_track_mix: Option<String>,
}

/// Reads the queries of a Tidal export.
#[derive(Default, Debug, Clone)]
pub struct TidalProvider {
    pub playlist: String,
    /// The path of the export file.
    pub file: PathBuf,
}

/// The lower-cased names of all artists of a track, in order.
pub open spec fn artist_words(t: TrackDetails) -> Seq<Seq<char>> {
    t.artists@.map_values(|a: Artist2| lowercase(a.name@))
}

/// The search query for a track: its artists' names and its title,
/// lower-cased and joined by spaces.
pub open spec fn track_query(t: TrackDetails) -> Seq<char> {
    join_words(artist_words(t)) + seq![' '] + lowercase(t.title@)
}

/// The artist part of a track's query holds every artist of the track, in
/// order: one word per artist, the artist's name lower-cased.
pub proof fn lemma_artist_words(t: TrackDetails)
    ensures
        artist_words(t).len() == t.artists.len(),
        forall|k: int|
            0 <= k < t.artists.len() ==> #[trigger] artist_words(t)[k] == lowercase(
                t.artists@[k].name@,
            ),
{
}

/// A track's query names every artist of the track (lower-cased, whole),
/// and ends with a space and the lower-cased title.
pub proof fn lemma_query_holds_every_artist(t: TrackDetails)
    ensures
        forall|k: int|
            0 <= k < t.artists.len() ==> stands_in(
                track_query(t),
                lowercase(#[trigger] t.artists@[k].name@),
            ),
        track_query(t).len() > lowercase(t.title@).len(),
        track_query(t).subrange(
            track_query(t).len() - lowercase(t.title@).len() - 1,
            track_query(t).len() as int,
        ) == seq![' '] + lowercase(t.title@),
{
    lemma_artist_words(t);
    let ws = artist_words(t);
    let j = join_words(ws);
    let q = track_query(t);
    lemma_join_holds_each_word(ws);
    assert forall|k: int| 0 <= k < t.artists.len() implies stands_in(
        q,
        lowercase(#[trigger] t.artists@[k].name@),
    ) by {
        assert(ws[k] == lowercase(t.artists@[k].name@));
        assert(stands_in(j, ws[k]));
        let off = choose|off: int| stands_at(j, ws[k], off);
        assert(q.subrange(off, off + ws[k].len()) =~= j.subrange(off, off + ws[k].len()));
        assert(stands_at(q, ws[k], off));
    }
    assert(q.subrange(q.len() - lowercase(t.title@).len() - 1, q.len() as int) =~= seq![' ']
        + lowercase(t.title@));
}

/// A track's query from its lower-cased artist names and its lower-cased
/// title: the names joined by spaces, a space, the title
/// (`vec![names.join(" "), title].join(" ")`).
pub fn build_query(artist_names: &Vec<String>, title: &String) -> (res: String)
    ensures
        res@ == join_words(texts(artist_names@)) + seq![' '] + title@,
{
    let mut query = join_with_spaces(artist_names);
    let sep = " ";
    proof {
        reveal_strlit(" ");
    }
    query.append(sep);
    query.append(title.as_str());
    assert(query@ =~= join_words(texts(artist_names@)) + seq![' '] + title@);
    query
}

/// The lower-cased names of all artists of a track.
fn lowered_artist_names(t: &TrackDetails) -> (res: Vec<String>)
    ensures
        texts(res@) == artist_words(*t),
{
    let mut out: Vec<String> = Vec::new();
    let mut j: usize = 0;
    while j < t.artists.len()
        invariant
            j <= t.artists.len(),
            out.len() == j,
            texts(out@) == artist_words(*t).take(j as int),
        decreases t.artists.len() - j,
    {
        let ghost prev = out@;
        let name = to_lower(t.artists[j].name.as_str());
        out.push(name);
        assert forall|k: int| 0 <= k <= j implies texts(out@)[k] == artist_words(*t).take(
            j + 1,
        )[k] by {
            if k < j {
                assert(texts(prev)[k] == artist_words(*t).take(j as int)[k]);
                assert(out@[k] == prev[k]);
            } else {
                assert(texts(out@)[k] == out@[k]@);
            }
        }
        assert(texts(out@) =~= artist_words(*t).take(j + 1));
        j = j + 1;
    }
    assert(artist_words(*t).take(j as int) =~= artist_words(*t));
    out
}

impl TidalProvider {
    /// A provider for the playlist and Tidal file that the options name.
    pub fn new(opts: &Opts) -> (res: TidalProvider)
        requires
            opts.tidal_file is Some,
        ensures
            res.playlist@ == opts.playlist@,
            res.file == opts.tidal_file->0,
    {
        TidalProvider {
            playlist: opts.playlist.clone(),
            file: opts.tidal_file.as_ref().unwrap().clone(),
        }
    }

    /// One (main artist, query) pair per track: the main artist's name
    /// lower-cased, and the track's query.
    pub fn convert_to_query(&self, item: Tidal) -> (res: Vec<(String, String)>)
        ensures
            res.len() == item.items.len(),
            forall|i: int|
                0 <= i < res.len() ==> {
                    &&& (#[trigger] res@[i]).0@ == lowercase(item.items@[i].item.artist.name@)
                    &&& res@[i].1@ == track_query(item.items@[i].item)
                },
            forall|i: int, k: int|
                0 <= i < res.len() && 0 <= k < item.items@[i].item.artists.len() ==> stands_in(
                    res@[i].1@,
                    lowercase(#[trigger] item.items@[i].item.artists@[k].name@),
                ),
            forall|i: int|
                0 <= i < res.len() ==> (#[trigger] res@[i]).1@.len() > lowercase(item.items@[i].item.title@).len()
                    && res@[i].1@.subrange(
                    res@[i].1@.len() - lowercase(item.items@[i].item.title@).len() - 1,
                    res@[i].1@.len() as int,
                ) == seq![' '] + lowercase(item.items@[i].item.title@),
    {
        let mut out: Vec<(String, String)> = Vec::new();
        let mut i: usize = 0;
        while i < item.items.len()
            invariant
                i <= item.items.len(),
                out.len() == i,
                forall|k: int|
                    0 <= k < i ==> {
                        &&& (#[trigger] out@[k]).0@ == lowercase(item.items@[k].item.artist.name@)
                        &&& out@[k].1@ == track_query(item.items@[k].item)
                    },
            decreases item.items.len() - i,
        {
            let details = &item.items[i].item;
            let names = lowered_artist_names(details);
            let title = to_lower(details.title.as_str());
            let query = build_query(&names, &title);
            out.push((to_lower(details.artist.name.as_str()), query));
            i = i + 1;
        }
        proof {
            assert forall|i: int, k: int|
                0 <= i < out.len() && 0 <= k < item.items@[i].item.artists.len() implies stands_in(
                    out@[i].1@,
                    lowercase(#[trigger] item.items@[i].item.artists@[k].name@),
                ) by {
                lemma_query_holds_every_artist(item.items@[i].item);
            }
            assert forall|i: int| 0 <= i < out.len() implies (#[trigger] out@[i]).1@.len() > lowercase(
                item.items@[i].item.title@,
            ).len() && out@[i].1@.subrange(
                out@[i].1@.len() - lowercase(item.items@[i].item.title@).len() - 1,
                out@[i].1@.len() as int,
            ) == seq![' '] + lowercase(item.items@[i].item.title@) by {
                lemma_query_holds_every_artist(item.items@[i].item);
            }
        }
        out
    }
}

} // verus!
