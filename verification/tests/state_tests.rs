use rust_radio::api::{BitrateFilterSetting, CategoryFilter};
use rust_radio::state::{remember_station, NavAction, RowAction, UIState, ViewType};
use rust_radio::station::{BrowseItem, Station};

fn station(name: &str, uuid: &str) -> Station {
    Station {
        stationuuid: uuid.to_string(),
        name: name.to_string(),
        url_resolved: format!("http://{}", uuid),
        tags: "tag".to_string(),
        country: "Country".to_string(),
        countrycode: "DE".to_string(),
        lastcheckok: 1,
        bitrate: Some(128),
    }
}

fn item(name: &str) -> BrowseItem {
    BrowseItem { name: name.to_string(), stationcount: 1 }
}

fn fresh() -> UIState {
    UIState::new(vec![], vec![], vec![], "None", String::new())
}

fn uuids(v: &[Station]) -> Vec<String> {
    v.iter().map(|s| s.stationuuid.clone()).collect()
}

#[test]
fn playing_puts_station_first_in_recents() {
    let mut recent = vec![station("a", "1"), station("b", "2"), station("c", "3")];
    remember_station(&mut recent, &station("b", "2"));
    assert_eq!(uuids(&recent), vec!["2", "1", "3"]);
    remember_station(&mut recent, &station("d", "4"));
    assert_eq!(uuids(&recent), vec!["4", "2", "1", "3"]);
}

#[test]
fn recents_keep_fifty() {
    let mut recent: Vec<Station> = (0..50).map(|i| station("x", &i.to_string())).collect();
    remember_station(&mut recent, &station("new", "new"));
    assert_eq!(recent.len(), 50);
    assert_eq!(recent[0].stationuuid, "new");
    assert_eq!(recent[49].stationuuid, "48");
}

#[test]
fn select_station_uses_view_list() {
    let mut ui = UIState::new(vec![station("fav", "f")], vec![], vec![], "None", String::new());
    ui.receive_stations(vec![station("s0", "0"), station("s1", "1")], "", "now".to_string());
    let s = ui.select_station(1).unwrap();
    assert_eq!(s.stationuuid, "1");
    assert_eq!(ui.current_index, Some(1));
    assert_eq!(uuids(&ui.recent_stations), vec!["1"]);
    assert!(ui.select_station(2).is_none());
    ui.current_view = ViewType::Favorites;
    let f = ui.select_station(0).unwrap();
    assert_eq!(f.stationuuid, "f");
    assert_eq!(uuids(&ui.recent_stations), vec!["f", "1"]);
}

#[test]
fn favorites_toggle() {
    let mut ui = fresh();
    let s = station("a", "1");
    assert!(!ui.is_favorite("1"));
    assert!(ui.toggle_favorite(&s));
    assert!(ui.is_favorite("1"));
    assert!(!ui.toggle_favorite(&s));
    assert!(!ui.is_favorite("1"));
    assert!(ui.favorites.is_empty());
}

#[test]
fn favorites_remove_by_id() {
    let mut ui = UIState::new(vec![station("a", "1"), station("b", "2")], vec![], vec![], "None", String::new());
    ui.remove_favorite("1");
    assert_eq!(uuids(&ui.favorites), vec!["2"]);
}

#[test]
fn category_row_fetches_stations_and_back_returns() {
    let mut ui = fresh();
    let heading = ui.receive_categories(ViewType::Tags, vec![item("jazz"), item("rock")], "t".to_string());
    assert_eq!(heading, "Browse by Tag");
    assert!(ui.cached_tags.is_some());
    let before_url = ui.last_fetched_url.clone();
    match ui.activate_row(1) {
        RowAction::FetchStations(url) => {
            assert_eq!(url, "https://de1.api.radio-browser.info/json/stations/search?tag=rock&order=bitrate&reverse=true");
        }
        RowAction::Play(_) => panic!("a tag row does not play"),
    }
    let heading = ui.receive_stations(vec![station("r", "1")], "2024-01-01 00:00:00", "now".to_string());
    assert_eq!(heading.as_deref(), Some("Now browsing: rock"));
    assert!(matches!(ui.current_view, ViewType::Stations));
    assert_eq!(ui.last_update_timestamp, "2024-01-01 00:00:00");
    match ui.go_back() {
        NavAction::ShowCategories(view, items) => {
            assert!(matches!(view, ViewType::Tags));
            assert_eq!(items.len(), 2);
        }
        _ => panic!("back shows the cached tags"),
    }
    assert!(matches!(ui.current_view, ViewType::Tags));
    assert_eq!(ui.last_fetched_url, before_url);
    assert!(matches!(ui.go_back(), NavAction::Nothing));
}

#[test]
fn station_rows_play() {
    let mut ui = fresh();
    ui.receive_stations(vec![station("a", "1")], "Unknown", "local".to_string());
    assert_eq!(ui.last_update_timestamp, "local");
    assert!(matches!(ui.activate_row(0), RowAction::Play(0)));
}

#[test]
fn custom_tag_and_back() {
    let mut ui = fresh();
    ui.current_view = ViewType::Favorites;
    let url = ui.open_custom_tag("lofi");
    assert_eq!(url, "https://de1.api.radio-browser.info/json/stations/search?tag=lofi&order=bitrate&reverse=true");
    let heading = ui.receive_stations(vec![], "x", "now".to_string());
    assert_eq!(heading.as_deref(), Some("Now Browsing Custom Tags > lofi"));
    match ui.go_back() {
        NavAction::ShowStations(list) => assert!(list.is_empty()),
        _ => panic!("back shows the favourites"),
    }
    assert!(matches!(ui.current_view, ViewType::Favorites));
    assert!(matches!(ui.active_category, CategoryFilter::Any));
}

#[test]
fn search_and_bitrate() {
    let mut ui = fresh();
    assert!(ui.search("").is_none());
    let url = ui.search("bbc").unwrap();
    assert_eq!(url, "https://de1.api.radio-browser.info/json/stations/byname/bbc");
    assert!(matches!(ui.current_view, ViewType::Stations));
    let url = ui.set_bitrate(BitrateFilterSetting::High);
    assert_eq!(url, "https://de1.api.radio-browser.info/json/stations/search?bitrateMin=192&order=bitrate&reverse=true");
    assert_eq!(ui.active_bitrate, BitrateFilterSetting::High);
    match ui.go_back() {
        NavAction::Fetch { url, stations, view } => {
            assert_eq!(url, "https://de1.api.radio-browser.info/json/tags?order=stationcount&reverse=true&hidebroken=true");
            assert!(!stations);
            assert!(matches!(view, ViewType::Tags));
        }
        _ => panic!("back fetches the tag list"),
    }
}

#[test]
fn category_lists_come_from_cache() {
    let mut ui = fresh();
    match ui.show_category_list(ViewType::Languages) {
        NavAction::Fetch { url, stations, .. } => {
            assert_eq!(url, "https://de1.api.radio-browser.info/json/languages?order=stationcount&reverse=true");
            assert!(!stations);
        }
        _ => panic!("nothing cached yet"),
    }
    ui.receive_categories(ViewType::Languages, vec![item("german")], "t".to_string());
    assert!(matches!(ui.show_category_list(ViewType::Languages), NavAction::ShowCategories(_, _)));
    assert!(matches!(ui.show_category_list(ViewType::Countries), NavAction::Fetch { .. }));
}

#[test]
fn track_buttons() {
    let mut ui = fresh();
    ui.receive_stations(vec![station("a", "1"), station("b", "2")], "", "now".to_string());
    assert_eq!(ui.prev_index(), None);
    ui.select_station(0);
    assert_eq!(ui.prev_index(), None);
    assert_eq!(ui.next_index(), Some(1));
    assert_eq!(ui.resume_index(), Some(0));
    ui.select_station(1);
    assert_eq!(ui.prev_index(), Some(0));
    assert_eq!(ui.next_index(), None);
    assert_eq!(ui.next_after_failure(0), Some(1));
    assert_eq!(ui.next_after_failure(1), None);
}

#[test]
fn working_count_and_headings() {
    let mut ui = fresh();
    let mut broken = station("b", "2");
    broken.lastcheckok = 0;
    ui.current_view = ViewType::Recent;
    let heading = ui.receive_stations(vec![station("a", "1"), broken], "", "now".to_string());
    assert_eq!(heading.as_deref(), Some("Recently Played"));
    assert_eq!(ui.total_elements_fetched, 1);
    assert_eq!(ui.last_stations_updated_count, 1);
}

#[test]
fn playlists_import_and_remove() {
    let mut ui = fresh();
    assert!(!ui.import_playlist(vec![]));
    assert!(ui.import_playlist(vec![station("a", ""), station("b", "")]));
    assert!(matches!(ui.current_view, ViewType::Playlists));
    assert_eq!(ui.playlists.len(), 2);
    assert!(ui.remove_playlist_entry(0));
    assert_eq!(ui.playlists[0].name, "b");
    assert!(!ui.remove_playlist_entry(5));
    ui.clear_recents();
    assert!(ui.recent_stations.is_empty());
}

#[test]
fn sort_is_stable_and_case_insensitive() {
    let mut ui = fresh();
    ui.receive_stations(
        vec![station("beta", "1"), station("Alpha", "2"), station("BETA", "3"), station("alpha", "4")],
        "",
        "now".to_string(),
    );
    ui.sort_by_name(true);
    assert_eq!(uuids(&ui.stations), vec!["2", "4", "1", "3"]);
    ui.sort_by_name(false);
    assert_eq!(uuids(&ui.stations), vec!["1", "3", "2", "4"]);
    ui.receive_categories(ViewType::Countries, vec![item("b"), item("A"), item("c")], "t".to_string());
    match ui.sort_by_name(true) {
        NavAction::ShowCategories(_, items) => {
            let names: Vec<String> = items.iter().map(|i| i.name.clone()).collect();
            assert_eq!(names, vec!["A", "b", "c"]);
        }
        _ => panic!("categories are shown again"),
    }
}

#[test]
fn sync_and_refresh_requests() {
    let mut ui = fresh();
    let (url, stations, view) = ui.refresh_request();
    assert_eq!(url, "https://de1.api.radio-browser.info/json/tags?order=stationcount&reverse=true&hidebroken=true");
    assert!(!stations);
    assert!(matches!(view, ViewType::Tags));
    let (url, stations, _) = ui.sync_request();
    assert_eq!(url, "https://de1.api.radio-browser.info/json/stations/search?order=bitrate&reverse=true");
    assert!(!stations);
    assert_eq!(ui.last_fetched_url, url);
    assert_eq!(ui.top_voted(), "https://de1.api.radio-browser.info/json/stations/topvote/150");
}

#[test]
fn background_refresh_only_when_enabled() {
    let ui = fresh();
    assert!(ui.background_refresh(false).is_none());
    let (url, is_stations, view) = ui.background_refresh(true).expect("enabled");
    assert_eq!(url, ui.last_fetched_url);
    assert!(!is_stations);
    assert!(matches!(view, ViewType::Tags));
}

#[test]
fn sort_clicks_alternate_across_views() {
    let mut ui = fresh();
    assert!(ui.sort_ascending);
    ui.receive_stations(
        vec![station("b", "1"), station("a", "2"), station("c", "3")],
        "",
        "now".to_string(),
    );
    ui.sort_click();
    assert_eq!(uuids(&ui.stations), vec!["2", "1", "3"]);
    ui.sort_click();
    assert_eq!(uuids(&ui.stations), vec!["3", "1", "2"]);
    ui.receive_categories(ViewType::Tags, vec![item("b"), item("a")], "t".to_string());
    match ui.sort_click() {
        NavAction::ShowCategories(_, items) => {
            let names: Vec<String> = items.iter().map(|i| i.name.clone()).collect();
            assert_eq!(names, vec!["a", "b"]);
        }
        _ => panic!("categories are shown again"),
    }
    assert!(!ui.sort_ascending);
}

#[test]
fn recents_keep_old_order_of_other_entries() {
    let mut recent = vec![station("a", "1"), station("b", "2"), station("c", "3"), station("d", "4")];
    remember_station(&mut recent, &station("c", "3"));
    assert_eq!(uuids(&recent), vec!["3", "1", "2", "4"]);
    remember_station(&mut recent, &station("e", "5"));
    assert_eq!(uuids(&recent), vec!["5", "3", "1", "2", "4"]);
}
