use std::path::PathBuf;

use spotify_importer::cli::Opts;
use spotify_importer::platform::Platform;
use spotify_importer::raw::{Raw, RawProvider, RawRecord};
use spotify_importer::tidal::{
    build_query, Artist, Artist2, Tidal, TidalProvider, Track, TrackDetails,
};

fn opts() -> Opts {
    Opts {
        debug: false,
        platform: Platform::RAW,
        playlist: "playlist-id".to_string(),
        tidal_file: Some(PathBuf::from("export.json")),
        raw_file: Some(PathBuf::from("list.csv")),
        youtube_playlist: Some("yt".to_string()),
    }
}

fn record(artist: &str, track: &str) -> RawRecord {
    RawRecord { artist: artist.to_string(), track: track.to_string() }
}

fn track(main: &str, artists: &[&str], title: &str) -> Track {
    let mut details = TrackDetails::default();
    details.title = title.to_string();
    details.artist = Artist { id: 1, name: main.to_string(), type_field: "MAIN".to_string() };
    details.artists = artists
        .iter()
        .map(|a| Artist2 { id: 2, name: a.to_string(), type_field: "MAIN".to_string() })
        .collect();
    Track { item: details, type_field: "track".to_string() }
}

#[test]
fn raw_provider_takes_options() {
    let p = RawProvider::new(&opts());
    assert_eq!(p.playlist, "playlist-id");
    assert_eq!(p.file, PathBuf::from("list.csv"));
}

#[test]
fn tidal_provider_takes_options() {
    let p = TidalProvider::new(&opts());
    assert_eq!(p.playlist, "playlist-id");
    assert_eq!(p.file, PathBuf::from("export.json"));
}

#[test]
fn raw_records_are_kept() {
    let raw = Raw::new_from_records(vec![record("A", "B"), record("C", "D")]);
    assert_eq!(raw.queries.len(), 2);
    assert_eq!(raw.queries[1].artist, "C");
}

#[test]
fn raw_queries_are_lower_case() {
    let p = RawProvider::new(&opts());
    let raw = Raw::new_from_records(vec![record("Daft Punk", "One More Time"), record("ABBA", "SOS")]);
    let q = p.convert_to_query(raw);
    assert_eq!(q, vec![
        ("daft punk".to_string(), "one more time".to_string()),
        ("abba".to_string(), "sos".to_string()),
    ]);
    assert_eq!(p.convert_to_query(Raw::new_from_records(vec![])), vec![]);
}

#[test]
fn tidal_queries_join_artists_and_title() {
    let p = TidalProvider::new(&opts());
    let tidal = Tidal {
        limit: 10,
        offset: 0,
        total_number_of_items: 3,
        items: vec![
            track("Daft Punk", &["Daft Punk", "Pharrell WILLIAMS"], "Get Lucky"),
            track("Solo", &["Solo"], "Song"),
            track("Nobody", &[], "Title"),
        ],
    };
    let q = p.convert_to_query(tidal);
    assert_eq!(q, vec![
        ("daft punk".to_string(), "daft punk pharrell williams get lucky".to_string()),
        ("solo".to_string(), "solo song".to_string()),
        ("nobody".to_string(), " title".to_string()),
    ]);
}

#[test]
fn paths_pass_through_untouched() {
    let odd = PathBuf::from("dir/ünï cödé\u{3000}.csv");
    let mut o = opts();
    o.raw_file = Some(odd.clone());
    o.tidal_file = Some(odd.clone());
    assert_eq!(RawProvider::new(&o).file, odd);
    assert_eq!(TidalProvider::new(&o).file, odd);
}

#[test]
fn query_from_lower_cased_parts() {
    let names = vec!["daft punk".to_string(), "pharrell williams".to_string()];
    assert_eq!(build_query(&names, &"get lucky".to_string()), "daft punk pharrell williams get lucky");
    assert_eq!(build_query(&vec![], &"t".to_string()), " t");
    assert_eq!(build_query(&vec!["A".to_string()], &"".to_string()), "A ");
}
