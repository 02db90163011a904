use rust_radio::api::BitrateFilterSetting;
use rust_radio::persist::{restore, saved_state, SavedState};
use rust_radio::settings::{
    analyzer_from_index, analyzer_index, bitrate_label, bitrate_setting_from_name,
    bitrate_setting_name, default_audio_sink, default_bitrate_str, sink_at, sink_index,
    AnalyzerType, AppPreferences,
};
use rust_radio::state::UIState;
use rust_radio::station::Station;

fn station(name: &str, uuid: &str) -> Station {
    Station {
        stationuuid: uuid.to_string(),
        name: name.to_string(),
        url_resolved: format!("http://{}", uuid),
        tags: "t".to_string(),
        country: "c".to_string(),
        countrycode: "DE".to_string(),
        lastcheckok: 1,
        bitrate: Some(128),
    }
}

#[test]
fn bitrate_names_round_trip() {
    for b in [
        BitrateFilterSetting::Any,
        BitrateFilterSetting::Low,
        BitrateFilterSetting::High,
        BitrateFilterSetting::Flac,
    ] {
        assert_eq!(bitrate_setting_from_name(bitrate_setting_name(b)), b);
    }
    assert_eq!(bitrate_setting_name(BitrateFilterSetting::Any), "None");
    assert_eq!(bitrate_setting_from_name("garbage"), BitrateFilterSetting::Any);
    assert_eq!(bitrate_setting_from_name("low"), BitrateFilterSetting::Any);
    assert_eq!(default_bitrate_str(), "None");
}

#[test]
fn bitrate_labels() {
    assert_eq!(bitrate_label(BitrateFilterSetting::Any), "\u{229F} Bitrate");
    assert_eq!(bitrate_label(BitrateFilterSetting::Low), "\u{229F} Low \u{2264}160");
    assert_eq!(bitrate_label(BitrateFilterSetting::High), "\u{229F} High \u{2265}192");
    assert_eq!(bitrate_label(BitrateFilterSetting::Flac), "\u{229F} FLAC");
}

#[test]
fn analyzer_positions_round_trip() {
    for a in [
        AnalyzerType::Bars,
        AnalyzerType::Wave,
        AnalyzerType::BlocksWithHold,
        AnalyzerType::DigitalVuBlocks,
    ] {
        assert_eq!(analyzer_from_index(analyzer_index(a)), a);
    }
    assert_eq!(analyzer_from_index(17), AnalyzerType::DigitalVuBlocks);
}

#[test]
fn sinks_round_trip() {
    for id in ["autoaudiosink", "pulsesink", "pipewiresink", "alsasink", "jackaudiosink", "osssink"] {
        assert_eq!(sink_at(sink_index(id)), Some(id));
    }
    assert_eq!(sink_index("mysterysink"), 0);
    assert_eq!(sink_at(6), None);
    assert_eq!(default_audio_sink(), "autoaudiosink");
}

#[test]
fn custom_tags_are_added_once_and_removed() {
    let mut prefs = AppPreferences::new(vec!["jazz".to_string()], "pulsesink".to_string());
    assert!(prefs.prefer_high_bitrate && prefs.hide_broken && prefs.auto_update);
    assert_eq!(prefs.analyzer_type, AnalyzerType::BlocksWithHold);
    assert!(!prefs.add_custom_tag("jazz".to_string()));
    assert!(prefs.add_custom_tag("rock".to_string()));
    assert_eq!(prefs.custom_tags, vec!["jazz".to_string(), "rock".to_string()]);
    assert!(prefs.has_custom_tag("rock"));
    prefs.remove_custom_tag("jazz");
    assert_eq!(prefs.custom_tags, vec!["rock".to_string()]);
    assert!(!prefs.has_custom_tag("jazz"));
}

#[test]
fn save_and_restore_keep_lists() {
    let mut ui = UIState::new(
        vec![station("A", "a")],
        vec![station("B", "b")],
        vec![station("C", "c")],
        "High",
        String::new(),
    );
    assert_eq!(ui.last_update_timestamp, "Never Gathered");
    ui.last_update_timestamp = "2024-05-06 07:08:09".to_string();
    let prefs = AppPreferences::new(vec!["jazz".to_string()], "alsasink".to_string());
    let saved = saved_state(&ui, &prefs);
    assert_eq!(saved.active_bitrate, "High");
    assert_eq!(saved.last_sync_timestamp, "2024-05-06 07:08:09");
    let (ui2, prefs2) = restore(saved);
    assert_eq!(ui2.favorites[0].stationuuid, "a");
    assert_eq!(ui2.recent_stations[0].stationuuid, "b");
    assert_eq!(ui2.playlists[0].stationuuid, "c");
    assert_eq!(ui2.active_bitrate, BitrateFilterSetting::High);
    assert_eq!(ui2.last_update_timestamp, "2024-05-06 07:08:09");
    assert_eq!(prefs2.custom_tags, vec!["jazz".to_string()]);
    assert_eq!(prefs2.audio_sink, "alsasink");
}

#[test]
fn restore_from_empty_save() {
    let saved = SavedState {
        favorites: vec![],
        custom_tags: vec![],
        active_bitrate: String::new(),
        recent_stations: vec![],
        last_sync_timestamp: String::new(),
        playlists: vec![],
        audio_sink: String::new(),
    };
    let (ui, _prefs) = restore(saved);
    assert_eq!(ui.active_bitrate, BitrateFilterSetting::Any);
    assert_eq!(ui.last_update_timestamp, "Never Gathered");
    assert_eq!(
        ui.last_fetched_url,
        "https://de1.api.radio-browser.info/json/tags?order=stationcount&reverse=true&hidebroken=true"
    );
}
