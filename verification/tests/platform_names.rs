use spotify_importer::platform::{Platform, UnknownPlatform};

#[test]
fn parses_known_platforms() {
    assert_eq!(Platform::from_str("tidal"), Ok(Platform::TIDAL));
    assert_eq!(Platform::from_str("raw"), Ok(Platform::RAW));
}

#[test]
fn refuses_other_names() {
    assert_eq!(Platform::from_str("Tidal"), Err(UnknownPlatform));
    assert_eq!(Platform::from_str("youtube"), Err(UnknownPlatform));
    assert_eq!(Platform::from_str("none"), Err(UnknownPlatform));
    assert_eq!(Platform::from_str(""), Err(UnknownPlatform));
    assert_eq!(Platform::from_str("raw "), Err(UnknownPlatform));
}

#[test]
fn refusal_message() {
    assert_eq!(UnknownPlatform.message(), "Could not parse a platform");
}
