use spotify_importer::cli::Opts;
use spotify_importer::platform::Platform;
use spotify_importer::youtube::{
    determine_artist_from_title, Content4, PlaylistVideoListRenderer, PlaylistVideoRenderer, Run,
    ShortBylineText, Title, TitleError, YoutubeProvider, tidy_song_text,
};

fn split(title: &str) -> Result<(String, String), TitleError> {
    determine_artist_from_title(&title.to_string())
}

fn video(title: &str) -> Content4 {
    Content4 {
        playlist_video_renderer: Some(PlaylistVideoRenderer {
            title: Title { runs: vec![Run { text: title.to_string() }] },
            short_byline_text: ShortBylineText::default(),
        }),
        continuation_item_renderer: None,
    }
}

fn provider() -> YoutubeProvider {
    YoutubeProvider::new(&Opts {
        debug: false,
        platform: Platform::NONE,
        playlist: "p".to_string(),
        tidal_file: None,
        raw_file: None,
        youtube_playlist: Some("yt-list".to_string()),
    })
}

#[test]
fn title_splits_at_dash() {
    assert_eq!(split("artist - song"), Ok(("artist".to_string(), " song".to_string())));
    assert_eq!(split("Artist-Song"), Ok(("artist".to_string(), "song".to_string())));
}

#[test]
fn title_drops_bracketed_extra() {
    assert_eq!(
        split("artist - song [official video]"),
        Ok(("artist".to_string(), "song".to_string()))
    );
    assert_eq!(split("a -  b\t [x]"), Ok(("a".to_string(), "b".to_string())));
    assert_eq!(split("a -b[x]"), Ok(("a".to_string(), "b".to_string())));
}

#[test]
fn title_keeps_only_second_piece() {
    assert_eq!(split("A - B - C"), Ok(("a".to_string(), " b ".to_string())));
    assert_eq!(split("a  - b"), Ok(("a ".to_string(), " b".to_string())));
    assert_eq!(split("-"), Ok(("".to_string(), "".to_string())));
}

#[test]
fn title_without_dash_is_refused() {
    assert_eq!(split("no separator here"), Err(TitleError::NoSeparator));
    assert_eq!(split(""), Err(TitleError::NoSeparator));
}

#[test]
fn youtube_provider_takes_playlist() {
    assert_eq!(provider().playlist, "yt-list");
}

#[test]
fn youtube_queries_from_titles() {
    let list = PlaylistVideoListRenderer {
        contents: vec![
            video("Daft Punk - One More Time [Official]"),
            Content4::default(),
            video("X-Y"),
        ],
    };
    let q = provider().convert_to_query(list);
    assert_eq!(q, vec![
        ("daft punk".to_string(), "one more time".to_string()),
        ("empty".to_string(), " empty".to_string()),
        ("x".to_string(), "y".to_string()),
    ]);
}

#[test]
fn youtube_unreadable_lists_are_refused() {
    let list = PlaylistVideoListRenderer { contents: vec![video("a - b"), video("no dash")] };
    assert_eq!(provider().try_convert_to_query(list), None);
    let empty_title = Content4 {
        playlist_video_renderer: Some(PlaylistVideoRenderer::default()),
        continuation_item_renderer: None,
    };
    let list = PlaylistVideoListRenderer { contents: vec![empty_title] };
    assert_eq!(provider().try_convert_to_query(list), None);
    let list = PlaylistVideoListRenderer { contents: vec![video("A - B")] };
    assert_eq!(
        provider().try_convert_to_query(list),
        Some(vec![("a".to_string(), " b".to_string())])
    );
}

#[test]
fn tidies_cut_song_names() {
    assert_eq!(tidy_song_text(" song \t "), "song");
    assert_eq!(tidy_song_text("song"), "song");
    assert_eq!(tidy_song_text("\tsong"), "\tsong");
    assert_eq!(tidy_song_text(" song"), "song");
    assert_eq!(tidy_song_text("song\u{3000} "), "song");
}

#[test]
fn ascii_titles_ignore_case() {
    for t in ["Daft Punk - One More Time [Official Video]", "ABBA-SOS", "no dash", "A - B - C", "X  -  y [Z] "] {
        let title = t.to_string();
        assert_eq!(split(&title.to_ascii_lowercase()), split(&title));
    }
}
