use rust_radio::playlist::{parse_m3u, parse_playlist, parse_pls};

#[test]
fn m3u_names_entries_from_extinf() {
    let content = "#EXTM3U\n#EXTINF:-1, Jazz FM \nhttp://jazz.example/stream\n\nhttp://plain.example/live\n";
    let stations = parse_m3u(content);
    assert_eq!(stations.len(), 2);
    assert_eq!(stations[0].name, "Jazz FM");
    assert_eq!(stations[0].url_resolved, "http://jazz.example/stream");
    assert_eq!(stations[0].tags, "imported");
    assert_eq!(stations[0].lastcheckok, 1);
    assert_eq!(stations[0].bitrate, None);
    assert_eq!(stations[0].stationuuid, "");
    assert_eq!(stations[1].name, "http://plain.example/live");
    assert_eq!(stations[1].url_resolved, "http://plain.example/live");
}

#[test]
fn m3u_title_applies_to_next_entry_only() {
    let content = "#EXTINF:0,First\r\nhttp://a\r\nhttp://b\r\n";
    let stations = parse_m3u(content);
    assert_eq!(stations.len(), 2);
    assert_eq!(stations[0].name, "First");
    assert_eq!(stations[0].url_resolved, "http://a");
    assert_eq!(stations[1].name, "http://b");
}

#[test]
fn m3u_skips_comments_and_blank_lines() {
    let content = "# comment\n   \n#EXTVLCOPT:foo\n";
    assert!(parse_m3u(content).is_empty());
    assert!(parse_m3u("").is_empty());
}

#[test]
fn m3u_extinf_without_comma_keeps_previous_title() {
    let content = "#EXTINF:Title\nhttp://x\n";
    let stations = parse_m3u(content);
    assert_eq!(stations.len(), 1);
    assert_eq!(stations[0].name, "http://x");
}

#[test]
fn m3u_trims_unicode_whitespace() {
    let content = "\u{3000}http://wide.example\u{A0}\n";
    let stations = parse_m3u(content);
    assert_eq!(stations.len(), 1);
    assert_eq!(stations[0].url_resolved, "http://wide.example");
}

#[test]
fn pls_pairs_files_with_titles() {
    let content = "\u{FEFF}[playlist]\r\nNumberOfEntries=2\r\nFile1=http://one.example\r\nTitle1=One\r\nfile2 = http://two.example \r\nVersion=2\r\n";
    let stations = parse_pls(content);
    assert_eq!(stations.len(), 2);
    assert_eq!(stations[0].name, "One");
    assert_eq!(stations[0].url_resolved, "http://one.example");
    assert_eq!(stations[1].name, "http://two.example");
    assert_eq!(stations[1].url_resolved, "http://two.example");
    assert_eq!(stations[1].tags, "imported");
}

#[test]
fn pls_later_title_replaces_earlier() {
    let content = "Title1=Old\nFile1=http://x\nTitle1=New\n";
    let stations = parse_pls(content);
    assert_eq!(stations.len(), 1);
    assert_eq!(stations[0].name, "New");
}

#[test]
fn pls_skips_empty_values_and_comments() {
    let content = "File1=\n#File2=http://hidden\nTitle3=\nFile3=http://three\n";
    let stations = parse_pls(content);
    assert_eq!(stations.len(), 1);
    assert_eq!(stations[0].url_resolved, "http://three");
    assert_eq!(stations[0].name, "http://three");
}

#[test]
fn pls_key_matched_case_insensitively() {
    let content = "fIlE7=http://seven\ntItLe7=Seven\n";
    let stations = parse_pls(content);
    assert_eq!(stations.len(), 1);
    assert_eq!(stations[0].name, "Seven");
}

#[test]
fn pls_short_keys_and_no_file_lines_give_nothing() {
    assert!(parse_pls("").is_empty());
    assert!(parse_pls("A=1\nB=2\n").is_empty());
    assert!(parse_pls("[playlist]\nTitle1=X\n").is_empty());
}

#[test]
fn pls_ligature_and_dotless_i_keys() {
    // "\u{FB01}le1" uppercases to "FILE1"; byte 4 is the `e`, so the number is "e1".
    let content = "\u{FB01}le1=http://lig\nT\u{131}tle1=Wrong\nTitlee1=Lig\n";
    let stations = parse_pls(content);
    assert_eq!(stations.len(), 1);
    assert_eq!(stations[0].url_resolved, "http://lig");
    assert_eq!(stations[0].name, "Lig");
}

#[test]
fn pls_dotless_i_key_slices_by_bytes() {
    // "fıle1" uppercases to "FILE1"; the number starts at byte 4, i.e. at the `e`.
    let content = "f\u{131}le1=http://odd\n";
    let stations = parse_pls(content);
    assert_eq!(stations.len(), 1);
    assert_eq!(stations[0].url_resolved, "http://odd");
}

#[test]
fn playlist_format_follows_extension() {
    let m3u = "#EXTM3U\n#EXTINF:-1,Radio One\nhttp://one\n";
    let pls = "[playlist]\nFile1=http://two\nTitle1=Two\n";
    assert_eq!(parse_playlist(Some("m3u"), m3u)[0].name, "Radio One");
    assert_eq!(parse_playlist(Some("M3U"), m3u).len(), 1);
    assert!(parse_playlist(Some("pls"), m3u).is_empty());
    assert!(parse_playlist(Some("M3u"), m3u).is_empty());
    assert_eq!(parse_playlist(None, pls)[0].name, "Two");
    assert_eq!(parse_playlist(Some("pls"), pls)[0].url_resolved, "http://two");
}
