use spotify_importer::text::{
    chars_of, has_char, is_white_space_char, part_after, part_before, position_of,
    join_with_spaces, remove_pattern, to_lower, trimmed_end, trimmed_start,
    without_trailing_space,
};

#[test]
fn to_lower_maps_ascii_and_unicode() {
    assert_eq!(to_lower("Daft PUNK"), "daft punk");
    assert_eq!(to_lower("ÀÉÎ"), "àéî");
    assert_eq!(to_lower(""), "");
}

#[test]
fn chars_of_reads_every_char() {
    assert_eq!(chars_of("aé-"), vec!['a', 'é', '-']);
    assert_eq!(chars_of(""), Vec::<char>::new());
}

#[test]
fn white_space_follows_unicode() {
    for c in ['\t', '\n', '\r', ' ', '\u{85}', '\u{A0}', '\u{1680}', '\u{2000}', '\u{200A}', '\u{2028}', '\u{2029}', '\u{202F}', '\u{205F}', '\u{3000}'] {
        assert!(is_white_space_char(c));
        assert_eq!(is_white_space_char(c), c.is_whitespace());
    }
    for c in ['a', '-', '\u{200B}', '\u{1F}', '\u{FEFF}'] {
        assert!(!is_white_space_char(c));
        assert_eq!(is_white_space_char(c), c.is_whitespace());
    }
}

#[test]
fn trims_as_std_does() {
    assert_eq!(trimmed_end("  a b \t\u{3000}"), "  a b");
    assert_eq!(trimmed_start("\u{A0} \na b  "), "a b  ");
    assert_eq!(trimmed_end("   "), "");
    assert_eq!(trimmed_start(""), "");
    let s = " \u{2003}x y\u{205F} ";
    assert_eq!(trimmed_end(s), s.trim_end());
    assert_eq!(trimmed_start(s), s.trim_start());
}

#[test]
fn cuts_at_first_separator() {
    assert_eq!(part_before("a-b-c", '-'), "a");
    assert_eq!(part_after("a-b-c", '-'), "b-c");
    assert_eq!(part_before("abc", '-'), "abc");
    assert_eq!(part_after("abc", '-'), "");
    assert_eq!(part_before("-x", '-'), "");
    assert_eq!(position_of(&vec!['x', 'y', '-'], '-'), 2);
    assert_eq!(position_of(&vec!['x'], '-'), 1);
    assert!(has_char("a[b", '['));
    assert!(!has_char("ab", '['));
}

#[test]
fn removes_patterns_left_to_right() {
    assert_eq!(remove_pattern("aaa", &vec!['a', 'a']), "a");
    assert_eq!(remove_pattern("x(feat. y)", &vec!['(', 'f', 'e', 'a', 't', '.', ' ']), "xy)");
    assert_eq!(remove_pattern("", &vec![')']), "");
    let s = "ab)c))d";
    assert_eq!(remove_pattern(s, &vec![')']), s.replace(")", ""));
}

#[test]
fn drops_one_trailing_space() {
    assert_eq!(without_trailing_space("abc  "), "abc ");
    assert_eq!(without_trailing_space("abc\t"), "abc\t");
    assert_eq!(without_trailing_space(""), "");
    assert_eq!(without_trailing_space(" "), "");
}

#[test]
fn joins_with_single_spaces() {
    assert_eq!(join_with_spaces(&vec!["a".to_string(), "b c".to_string(), "".to_string()]), "a b c ");
    assert_eq!(join_with_spaces(&vec![]), "");
    assert_eq!(join_with_spaces(&vec!["x".to_string()]), "x");
}

#[test]
fn to_lower_on_ascii_is_ascii_lowering() {
    let s = "MiXeD [Case] - 123!";
    assert_eq!(to_lower(s), s.to_ascii_lowercase());
}
