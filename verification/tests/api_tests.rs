use rust_radio::api::{
    build_filtered_url, limit_stations, request_url_for, search_by_name_url, sync_time_text,
    visible_categories, BitrateFilterSetting, CategoryFilter,
};
use rust_radio::station::{BrowseItem, Station};

fn station(name: &str, uuid: &str) -> Station {
    Station {
        stationuuid: uuid.to_string(),
        name: name.to_string(),
        url_resolved: format!("http://{}", uuid),
        tags: String::new(),
        country: String::new(),
        countrycode: String::new(),
        lastcheckok: 1,
        bitrate: None,
    }
}

#[test]
fn filtered_url_without_category() {
    let url = build_filtered_url(&CategoryFilter::Any, BitrateFilterSetting::Any);
    assert_eq!(
        url,
        "https://de1.api.radio-browser.info/json/stations/search?order=bitrate&reverse=true"
    );
}

#[test]
fn filtered_url_encodes_tag() {
    let url = build_filtered_url(&CategoryFilter::Tag("R&B soul".to_string()), BitrateFilterSetting::Low);
    assert_eq!(
        url,
        "https://de1.api.radio-browser.info/json/stations/search?tag=R%26B%20soul&bitrateMax=160&order=bitrate&reverse=true"
    );
}

#[test]
fn filtered_url_encodes_utf8_bytes() {
    let url = build_filtered_url(&CategoryFilter::Country("Côte d'Ivoire".to_string()), BitrateFilterSetting::High);
    assert_eq!(
        url,
        "https://de1.api.radio-browser.info/json/stations/search?country=C%C3%B4te%20d%27Ivoire&bitrateMin=192&order=bitrate&reverse=true"
    );
}

#[test]
fn flac_filter_depends_on_category() {
    let tag = build_filtered_url(&CategoryFilter::Tag("jazz".to_string()), BitrateFilterSetting::Flac);
    assert!(tag.ends_with("tag=jazz&bitrateMin=500&order=bitrate&reverse=true"));
    let lang = build_filtered_url(&CategoryFilter::Language("german".to_string()), BitrateFilterSetting::Flac);
    assert!(lang.ends_with("language=german&tag=flac&order=bitrate&reverse=true"));
}

#[test]
fn request_url_adds_preferences() {
    let base = "https://x/json/stations/search?tag=a&order=bitrate&reverse=true".to_string();
    let url = request_url_for(base.clone(), true, true, true);
    assert_eq!(url, format!("{}&lastcheckok=1&order=bitrate&reverse=true", base));
    let plain = request_url_for("https://x/json/stations/topvote/150".to_string(), true, true, false);
    assert_eq!(plain, "https://x/json/stations/topvote/150?lastcheckok=1");
    let second = request_url_for("https://x/a".to_string(), true, false, true);
    assert_eq!(second, "https://x/a?order=bitrate&reverse=true");
    let cats = request_url_for("https://x/json/tags".to_string(), false, true, true);
    assert_eq!(cats, "https://x/json/tags");
}

#[test]
fn search_url_keeps_query() {
    assert_eq!(
        search_by_name_url("bbc radio"),
        "https://de1.api.radio-browser.info/json/stations/byname/bbc radio"
    );
}

#[test]
fn station_list_is_limited() {
    let many: Vec<Station> = (0..300).map(|i| station(&format!("s{}", i), &format!("u{}", i))).collect();
    let limited = limit_stations(many);
    assert_eq!(limited.len(), 250);
    assert_eq!(limited[249].name, "s249");
    let few = limit_stations(vec![station("a", "1")]);
    assert_eq!(few.len(), 1);
}

#[test]
fn blank_categories_are_dropped_and_limited() {
    let mut items = vec![
        BrowseItem { name: "  ".to_string(), stationcount: 3 },
        BrowseItem { name: "jazz".to_string(), stationcount: 9 },
    ];
    for i in 0..150 {
        items.push(BrowseItem { name: format!("t{}", i), stationcount: i });
    }
    let shown = visible_categories(items);
    assert_eq!(shown.len(), 100);
    assert_eq!(shown[0].name, "jazz");
    assert_eq!(shown[99].name, "t98");
}

#[test]
fn sync_time_falls_back_to_unknown() {
    assert_eq!(sync_time_text(None), "Unknown");
    assert_eq!(sync_time_text(Some("2024-01-02 03:04:05".to_string())), "2024-01-02 03:04:05");
}

fn percent_decode_str(v: &str) -> Vec<u8> {
    let b = v.as_bytes();
    let mut out = Vec::new();
    let mut i = 0;
    while i < b.len() {
        if b[i] == b'%' && i + 2 < b.len() {
            let hex = std::str::from_utf8(&b[i + 1..i + 3]).unwrap();
            out.push(u8::from_str_radix(hex, 16).unwrap());
            i += 3;
        } else {
            out.push(b[i]);
            i += 1;
        }
    }
    out
}

#[test]
fn category_value_decodes_back_and_adds_no_parameter() {
    let name = "rock & roll=?#%é";
    let url = build_filtered_url(&CategoryFilter::Tag(name.to_string()), BitrateFilterSetting::High);
    assert_eq!(url.matches('?').count(), 1);
    let query = url.split('?').nth(1).unwrap();
    let pairs: Vec<&str> = query.split('&').collect();
    assert_eq!(pairs.len(), 4);
    let (key, value) = pairs[0].split_once('=').unwrap();
    assert_eq!(key, "tag");
    assert_eq!(String::from_utf8(percent_decode_str(value)).unwrap(), name);
    assert_eq!(&pairs[1..], &["bitrateMin=192", "order=bitrate", "reverse=true"]);
}
