use spotify_importer::search::{
    build_track_artists, chunk_track_uris, match_search_results, not_found, pick_track_uri,
    sanitize_query, FoundTrack, SearchOutcome, TRACKS_PER_REQUEST,
};

fn found(uri: &str, artists: &[&str]) -> FoundTrack {
    FoundTrack { uri: uri.to_string(), artist_names: artists.iter().map(|a| a.to_string()).collect() }
}

fn outcome(artist: &str, query: &str, tracks: Option<Vec<FoundTrack>>) -> SearchOutcome {
    SearchOutcome { artist: artist.to_string(), query: query.to_string(), tracks }
}

fn uris(n: usize) -> Vec<String> {
    (0..n).map(|i| format!("spotify:track:{}", i)).collect()
}

#[test]
fn sanitize_drops_feat_marker_and_parens() {
    assert_eq!(sanitize_query("song (feat. someone)".to_string()), "song someone");
    assert_eq!(sanitize_query("a)b)(c".to_string()), "ab(c");
    assert_eq!(sanitize_query("plain".to_string()), "plain");
    assert_eq!(sanitize_query("(fea)t. x".to_string()), "(feat. x");
}

#[test]
fn track_artists_lower_case() {
    assert_eq!(build_track_artists(&found("u", &["Daft Punk", "ABBA"])), vec!["daft punk", "abba"]);
}

#[test]
fn picks_first_track_by_artist() {
    let tracks = vec![
        found("u1", &["Other"]),
        found("u2", &["Someone", "Daft Punk"]),
        found("u3", &["daft punk"]),
    ];
    assert_eq!(pick_track_uri(&"daft punk".to_string(), &tracks), Some("u2".to_string()));
    assert_eq!(pick_track_uri(&"nobody".to_string(), &tracks), None);
    assert_eq!(pick_track_uri(&"Daft Punk".to_string(), &tracks), None);
    assert_eq!(pick_track_uri(&"x".to_string(), &vec![]), None);
}

#[test]
fn not_found_message_names_search() {
    assert_eq!(not_found(&"abba".to_string(), &"abba sos".to_string()), "Could not find abba abba sos");
}

#[test]
fn search_results_sorted_into_matches_and_reports() {
    let results = vec![
        outcome("abba", "abba sos", Some(vec![found("u1", &["ABBA"])])),
        outcome("x", "x y", None),
        outcome("y", "y z", Some(vec![found("u2", &["Other"])])),
        outcome("z", "z w", Some(vec![])),
        outcome("w", "w v", Some(vec![found("u3", &["a"]), found("u4", &["W"])])),
    ];
    let (matched, failed) = match_search_results(&results);
    assert_eq!(matched, vec!["u1", "u4"]);
    assert_eq!(failed, vec!["Could not find y y z", "Could not find z z w"]);
    assert_eq!(matched.len() + failed.len(), 4);
}

#[test]
fn batches_of_eighty() {
    assert_eq!(TRACKS_PER_REQUEST, 80);
    assert!(chunk_track_uris(&uris(0), TRACKS_PER_REQUEST).is_empty());
    let one = chunk_track_uris(&uris(80), TRACKS_PER_REQUEST);
    assert_eq!(one.len(), 1);
    assert_eq!(one[0], uris(80));
    let many = chunk_track_uris(&uris(161), TRACKS_PER_REQUEST);
    assert_eq!(many.iter().map(|b| b.len()).collect::<Vec<_>>(), vec![80, 80, 1]);
    assert_eq!(many.concat(), uris(161));
    let std_chunks: Vec<Vec<String>> = uris(161).chunks(80).map(|c| c.to_vec()).collect();
    assert_eq!(many, std_chunks);
}

#[test]
fn batches_of_any_size() {
    let b = chunk_track_uris(&uris(7), 3);
    assert_eq!(b.iter().map(|b| b.len()).collect::<Vec<_>>(), vec![3, 3, 1]);
    assert_eq!(b.concat(), uris(7));
}
