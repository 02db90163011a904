use rust_radio::display::{
    codec_from_mime, country_code_to_flag, custom_tag_name, format_time, kbps_text,
    now_playing_subtitle, saved_station_subtitle, station_row_subtitle, stream_info_line,
    stream_title_line, tag_to_icon,
};
use rust_radio::text::is_white_space_char;

#[test]
fn flag_of_country_code() {
    assert_eq!(country_code_to_flag("DE"), "\u{1F1E9}\u{1F1EA}");
    assert_eq!(country_code_to_flag("de"), "\u{1F1E9}\u{1F1EA}");
    assert_eq!(country_code_to_flag("U-s"), "\u{1F1FA}\u{1F1F8}");
    assert_eq!(country_code_to_flag(""), "");
    assert_eq!(country_code_to_flag("12"), "");
}

#[test]
fn flag_ignores_case() {
    for code in ["gb", "Gb", "gB", "GB"] {
        assert_eq!(country_code_to_flag(code), "\u{1F1EC}\u{1F1E7}");
    }
}

#[test]
fn time_is_minutes_and_seconds() {
    assert_eq!(format_time(0), "00:00");
    assert_eq!(format_time(59), "00:59");
    assert_eq!(format_time(61), "01:01");
    assert_eq!(format_time(3599), "59:59");
    assert_eq!(format_time(6000), "100:00");
}

#[test]
fn time_reads_back() {
    for t in [0u64, 7, 60, 754, 3600, 86399] {
        let text = format_time(t);
        let (m, s) = text.split_once(':').unwrap();
        assert_eq!(m.parse::<u64>().unwrap() * 60 + s.parse::<u64>().unwrap(), t);
        assert_eq!(s.len(), 2);
    }
}

#[test]
fn tag_icons_by_keyword() {
    assert_eq!(tag_to_icon("FLAC"), "audio-headphones-symbolic");
    assert_eq!(tag_to_icon("Deep House"), "utilities-terminal-symbolic");
    assert_eq!(tag_to_icon("hip hop"), "microphone-sensitivity-high-symbolic");
    assert_eq!(tag_to_icon("Rock"), "media-optical-cd-audio-symbolic");
    assert_eq!(tag_to_icon("classical"), "emblem-music-symbolic");
    assert_eq!(tag_to_icon("news"), "dialog-information-symbolic");
    assert_eq!(tag_to_icon("pop"), "starred-symbolic");
    assert_eq!(tag_to_icon("musica"), "audio-x-generic-symbolic");
    assert_eq!(tag_to_icon("radio"), "audio-input-microphone-symbolic");
    assert_eq!(tag_to_icon("zzz"), "audio-x-generic-symbolic");
    assert_eq!(tag_to_icon(""), "audio-x-generic-symbolic");
}

#[test]
fn tag_icon_first_group_wins() {
    // "jazz" comes after "rock" in the keyword groups.
    assert_eq!(tag_to_icon("jazz rock"), "media-optical-cd-audio-symbolic");
    // "trap" contains "rap": hip-hop, before anything later.
    assert_eq!(tag_to_icon("trap"), "microphone-sensitivity-high-symbolic");
}

#[test]
fn codec_names() {
    assert_eq!(codec_from_mime("audio/mpeg").as_deref(), Some("MP3"));
    assert_eq!(codec_from_mime("audio/aac").as_deref(), Some("AAC"));
    assert_eq!(codec_from_mime("audio/mp4a-latm").as_deref(), Some("AAC"));
    assert_eq!(codec_from_mime("audio/x-raw").as_deref(), Some("PCM"));
    assert_eq!(codec_from_mime("audio/x-ape").as_deref(), Some("APE"));
    assert_eq!(codec_from_mime("audio/ogg").as_deref(), Some("OGG"));
    assert_eq!(codec_from_mime("video/x-raw"), None);
}

#[test]
fn stream_lines() {
    assert_eq!(stream_title_line(&None), "\u{266B} Live Stream");
    assert_eq!(stream_title_line(&Some("Song".to_string())), "\u{266B} Song");
    assert_eq!(stream_info_line(&vec![]), "");
    assert_eq!(
        stream_info_line(&vec!["MP3".to_string(), "128 kbps".to_string()]),
        "MP3 \u{B7} 128 kbps"
    );
    assert_eq!(kbps_text(128000), "128 kbps");
    assert_eq!(kbps_text(999), "0 kbps");
}

#[test]
fn station_subtitles() {
    assert_eq!(station_row_subtitle("", "Germany", "jazz", Some(128)), "Germany | jazz | 128 kbps");
    assert_eq!(station_row_subtitle("F", "Germany", "jazz", Some(0)), "F Germany | jazz");
    assert_eq!(station_row_subtitle("F", "Germany", "jazz", None), "F Germany | jazz");
    assert_eq!(saved_station_subtitle("France", "pop", Some(0)), "France | pop [0 kbps]");
    assert_eq!(saved_station_subtitle("France", "pop", None), "France | pop");
    assert_eq!(now_playing_subtitle("Italy", "rock", Some(320)), "Italy | rock (320 kbps)");
}

#[test]
fn custom_tag_names_are_trimmed_and_lowercased() {
    assert_eq!(custom_tag_name("  Deep House "), "deep house");
    assert_eq!(custom_tag_name("ÉLECTRO"), "électro");
}

#[test]
fn whitespace_matches_std() {
    for u in 0u32..=0x10FFFF {
        if let Some(c) = char::from_u32(u) {
            assert_eq!(is_white_space_char(c), c.is_whitespace(), "{:x}", u);
        }
    }
}

#[test]
fn tag_icon_ignores_case() {
    for tag in ["Rock", "JAZZ", "Classic Rock", "news talk", "LoFi HipHop", "Ambient"] {
        let icon = tag_to_icon(tag);
        assert_eq!(tag_to_icon(&tag.to_lowercase()), icon);
        assert_eq!(tag_to_icon(&tag.to_ascii_uppercase()), icon);
    }
}
