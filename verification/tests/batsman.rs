use sportspulse::parse_batsman_from_text;

#[test]
fn test_parse_batsman_from_text() {
    assert_eq!(parse_batsman_from_text("V Kohli c Smith b Starc"), Some("V Kohli".to_string()));
    assert_eq!(parse_batsman_from_text("OUT! R Sharma lbw b Cummins"), Some("R Sharma".to_string()));
    assert_eq!(parse_batsman_from_text("Starc to S Gill, OUT, caught by Smith"), Some("S Gill".to_string()));
    assert_eq!(parse_batsman_from_text("KL Rahul b Bumrah"), Some("KL Rahul".to_string()));
    assert_eq!(parse_batsman_from_text("R Pant run out (Jadeja)"), Some("R Pant".to_string()));
}

#[test]
fn batsman_blank_text_gives_nothing() {
    assert_eq!(parse_batsman_from_text(""), None);
    assert_eq!(parse_batsman_from_text("   \t\n"), None);
}

#[test]
fn batsman_without_keyword_gives_nothing() {
    assert_eq!(parse_batsman_from_text("Dot ball, well left"), None);
}

#[test]
fn batsman_space_out_marker() {
    assert_eq!(parse_batsman_from_text("Cummins to S Iyer OUT, bowled"), Some("S Iyer".to_string()));
}

#[test]
fn batsman_earliest_keyword_wins() {
    // " b " comes before " c " here, so the name ends at the first keyword.
    assert_eq!(parse_batsman_from_text("A Batter b X c Y"), Some("A Batter".to_string()));
    assert_eq!(parse_batsman_from_text("J Root st Pant b Ashwin"), Some("J Root".to_string()));
    assert_eq!(parse_batsman_from_text("B Stokes hit wicket b Shami"), Some("B Stokes".to_string()));
    assert_eq!(parse_batsman_from_text("S Smith retired hurt"), Some("S Smith".to_string()));
}

#[test]
fn batsman_repeated_out_markers_are_removed() {
    assert_eq!(parse_batsman_from_text("OUT!OUT! M Starc c Kohli b Bumrah"), Some("M Starc".to_string()));
    assert_eq!(parse_batsman_from_text("OUT, D Warner lbw b Jadeja"), Some("D Warner".to_string()));
}

#[test]
fn batsman_name_of_forty_bytes_is_rejected() {
    let long = "A".repeat(40);
    assert_eq!(parse_batsman_from_text(&format!("{} c X b Y", long)), None);
    let fits = "A".repeat(39);
    assert_eq!(parse_batsman_from_text(&format!("{} c X b Y", fits)), Some(fits));
}

#[test]
fn batsman_name_length_counts_bytes() {
    // 14 characters of two bytes each: 28 bytes, accepted.
    let short = "é".repeat(14);
    assert_eq!(parse_batsman_from_text(&format!("{} c X b Y", short)), Some(short.clone()));
    // 20 characters of two bytes each: 40 bytes, rejected.
    let long = "é".repeat(20);
    assert_eq!(parse_batsman_from_text(&format!("{} c X b Y", long)), None);
}

#[test]
fn batsman_name_is_trimmed_of_unicode_space() {
    assert_eq!(
        parse_batsman_from_text("\u{3000} V Kohli\u{a0} c Smith b Starc"),
        Some("V Kohli".to_string())
    );
}

#[test]
fn batsman_falls_back_when_to_line_has_no_name() {
    // " to " followed directly by ", OUT" leaves an empty name; the keyword
    // search then reads the start of the line.
    assert_eq!(parse_batsman_from_text("X to , OUT c Y"), Some("X to , OUT".to_string()));
}
