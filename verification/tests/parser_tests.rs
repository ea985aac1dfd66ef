use resonate::parser::{extract_video_id, parse_duration, parse_search_results};

fn lines(list: &[&str]) -> Vec<String> {
    list.iter().map(|s| s.to_string()).collect()
}

const SEP: &str = " \u{2022} ";

#[test]
fn duration_of_minutes_and_seconds() {
    assert_eq!(parse_duration("3:25"), 205);
    assert_eq!(parse_duration("0:59"), 59);
    assert_eq!(parse_duration("10:00"), 600);
}

#[test]
fn duration_without_a_colon_is_zero() {
    assert_eq!(parse_duration("12345"), 0);
    assert_eq!(parse_duration(""), 0);
    assert_eq!(parse_duration("live"), 0);
}

#[test]
fn duration_with_bad_fields_is_zero() {
    assert_eq!(parse_duration("x:25"), 0);
    assert_eq!(parse_duration("3:2x"), 0);
    assert_eq!(parse_duration(":25"), 0);
    assert_eq!(parse_duration("3:"), 0);
    assert_eq!(parse_duration("99999999999999999999999:00"), 0);
}

#[test]
fn duration_ignores_a_third_field() {
    assert_eq!(parse_duration("1:02:55"), 62);
}

#[test]
fn video_id_of_a_watch_link() {
    let id = extract_video_id("https://music.youtube.com/watch?v=abc123XYZ");
    assert_eq!(id.as_deref(), Some("abc123XYZ"));
}

#[test]
fn short_or_foreign_links_have_no_video_id() {
    assert!(extract_video_id("https://short").is_none());
    assert!(extract_video_id("https://music.youtube.com/channel/UCabcdefgh").is_none());
    assert!(extract_video_id("https://music.youtube.com/wrong_but_w_here").is_none());
}

#[test]
fn one_record_becomes_one_song() {
    let text = lines(&[
        "Song Name",
        "The Artist",
        SEP,
        "The Album",
        "ignored",
        "3:25",
        "1.2M plays",
    ]);
    let ids = lines(&["vid1"]);
    let songs = parse_search_results(&text, &ids);
    assert_eq!(songs.len(), 1);
    assert_eq!(songs[0].name, "Song Name");
    assert_eq!(songs[0].artist, "The Artist");
    assert_eq!(songs[0].album, "The Album");
    assert_eq!(songs[0].id, "vid1");
    assert_eq!(songs[0].duration, 205);
    assert_eq!(songs[0].sql_id, 0);
    assert!(songs[0].file.is_none());
}

#[test]
fn artist_lines_accumulate_up_to_the_separator() {
    let text = lines(&[
        "Name",
        "First",
        " & Second",
        " & Third",
        SEP,
        "Album",
        "ignored",
        "2:00",
        "plays",
    ]);
    let ids = lines(&["vid1"]);
    let songs = parse_search_results(&text, &ids);
    assert_eq!(songs.len(), 1);
    assert_eq!(songs[0].artist, "First & Second & Third");
    assert_eq!(songs[0].duration, 120);
}

#[test]
fn unusable_duration_skips_the_record_but_consumes_its_id() {
    let text = lines(&[
        // A record whose duration line has no colon: no song, but the
        // identifier is used up.
        "Video Name",
        "Someone",
        SEP,
        "Album A",
        "ignored",
        "LIVE",
        // The next record is fine.
        "Real Song",
        "Artist B",
        SEP,
        "Album B",
        "ignored",
        "4:01",
        "plays",
    ]);
    let ids = lines(&["wasted", "kept"]);
    let songs = parse_search_results(&text, &ids);
    assert_eq!(songs.len(), 1);
    assert_eq!(songs[0].name, "Real Song");
    assert_eq!(songs[0].id, "kept");
    assert_eq!(songs[0].duration, 241);
}

#[test]
fn two_records_become_two_songs() {
    let text = lines(&[
        "One",
        "A1",
        SEP,
        "Al1",
        "x",
        "1:00",
        "p",
        "Two",
        "A2",
        SEP,
        "Al2",
        "x",
        "2:00",
        "p",
    ]);
    let ids = lines(&["v1", "v2"]);
    let songs = parse_search_results(&text, &ids);
    assert_eq!(songs.len(), 2);
    assert_eq!(songs[0].name, "One");
    assert_eq!(songs[0].id, "v1");
    assert_eq!(songs[0].duration, 60);
    assert_eq!(songs[1].name, "Two");
    assert_eq!(songs[1].id, "v2");
    assert_eq!(songs[1].duration, 120);
}

#[test]
fn truncated_text_keeps_the_records_already_read() {
    let text = lines(&[
        "Good",
        "Artist",
        SEP,
        "Album",
        "x",
        "1:30",
        "p",
        // Truncated second record: too few lines.
        "Partial",
        "Artist",
        SEP,
    ]);
    let ids = lines(&["v1", "v2"]);
    let songs = parse_search_results(&text, &ids);
    assert_eq!(songs.len(), 1);
    assert_eq!(songs[0].name, "Good");
    assert_eq!(songs[0].duration, 90);
}

#[test]
fn no_separator_means_no_records() {
    let text = lines(&["a", "b", "c", "d", "e", "f", "g"]);
    let ids = lines(&["v1"]);
    let songs = parse_search_results(&text, &ids);
    assert!(songs.is_empty());
}

#[test]
fn records_without_identifiers_are_not_parsed() {
    let text = lines(&[
        "Name",
        "Artist",
        SEP,
        "Album",
        "x",
        "3:00",
        "p",
    ]);
    let songs = parse_search_results(&text, &lines(&[]));
    assert!(songs.is_empty());
}
