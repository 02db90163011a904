//! What the player saves between sessions, and how a session starts from it.
use vstd::prelude::*;

use crate::settings::{
    bitrate_name, bitrate_setting_name, lemma_bitrate_name_roundtrip,
    tag_views, AppPreferences, AnalyzerType,
};
use crate::state::{startup_model, UiModel, UIState};
use crate::station::{station_views, Station, StationView};

verus! {

/// The saved data of the player.
#[derive(Debug)]
pub struct SavedState {
    pub favorites: Vec<Station>,
    pub custom_tags: Vec<String>,
    pub active_bitrate: String,
    pub recent_stations: Vec<Station>,
    pub last_sync_timestamp: String,
    pub playlists: Vec<Station>,
    pub audio_sink: String,
}

/// The model of a [`SavedState`].
pub ghost struct SavedModel {
    pub favorites: Seq<StationView>,
    pub custom_tags: Seq<Seq<char>>,
    pub active_bitrate: Seq<char>,
    pub recent_stations: Seq<StationView>,
    pub last_sync_timestamp: Seq<char>,
    pub playlists: Seq<StationView>,
    pub audio_sink: Seq<char>,
}

impl View for SavedState {
    type V = SavedModel;

    open spec fn view(&self) -> SavedModel {
        SavedModel {
            favorites: station_views(self.favorites@),
            custom_tags: tag_views(self.custom_tags@),
            active_bitrate: self.active_bitrate@,
            recent_stations: station_views(self.recent_stations@),
            last_sync_timestamp: self.last_sync_timestamp@,
            playlists: station_views(self.playlists@),
            audio_sink: self.audio_sink@,
        }
    }
}

/// What is saved of a session: the saved lists, the bitrate filter by name,
/// the time of the last sync, the custom tags and the audio sink.
pub open spec fn saved_model(ui: UiModel, custom_tags: Seq<Seq<char>>, audio_sink: Seq<char>) -> SavedModel {
    SavedModel {
        favorites: ui.favorites,
        custom_tags: custom_tags,
        active_bitrate: bitrate_name(ui.active_bitrate),
        recent_stations: ui.recent_stations,
        last_sync_timestamp: ui.last_update_timestamp,
        playlists: ui.playlists,
        audio_sink: audio_sink,
    }
}

fn copy_stations(v: &Vec<Station>) -> (r: Vec<Station>)
    ensures
        station_views(r@) == station_views(v@),
{
    let mut out: Vec<Station> = Vec::new();
    for i in 0..v.len()
        invariant
            station_views(out@) == station_views(v@).subrange(0, i as int),
    {
        let ghost before = station_views(out@);
        out.push(v[i].clone());
        proof {
            assert(station_views(out@) =~= before.push(v@[i as int]@));
            assert(station_views(v@).subrange(0, i + 1) =~= station_views(v@).subrange(
                0,
                i as int,
            ).push(v@[i as int]@));
        }
    }
    proof {
        assert(station_views(v@).subrange(0, v.len() as int) =~= station_views(v@));
    }
    out
}

fn copy_tags(v: &Vec<String>) -> (r: Vec<String>)
    ensures
        tag_views(r@) == tag_views(v@),
{
    let mut out: Vec<String> = Vec::new();
    for i in 0..v.len()
        invariant
            tag_views(out@) == tag_views(v@).subrange(0, i as int),
    {
        let ghost before = tag_views(out@);
        out.push(v[i].clone());
        proof {
            assert(tag_views(out@) =~= before.push(v@[i as int]@));
            assert(tag_views(v@).subrange(0, i + 1) =~= tag_views(v@).subrange(0, i as int).push(
                v@[i as int]@,
            ));
        }
    }
    proof {
        assert(tag_views(v@).subrange(0, v.len() as int) =~= tag_views(v@));
    }
    out
}

/// What is saved of the browsing state and the preferences.
pub fn saved_state(ui: &UIState, prefs: &AppPreferences) -> (r: SavedState)
    ensures
        r@ == saved_model(ui@, tag_views(prefs.custom_tags@), prefs.audio_sink@),
{
    SavedState {
        favorites: copy_stations(&ui.favorites),
        custom_tags: copy_tags(&prefs.custom_tags),
        active_bitrate: String::from_str(bitrate_setting_name(ui.active_bitrate)),
        recent_stations: copy_stations(&ui.recent_stations),
        last_sync_timestamp: ui.last_update_timestamp.clone(),
        playlists: copy_stations(&ui.playlists),
        audio_sink: prefs.audio_sink.clone(),
    }
}

/// The browsing state and preferences a session starts with, from what was saved.
pub fn restore(saved: SavedState) -> (r: (UIState, AppPreferences))
    ensures
        r.0@ == startup_model(
            saved@.favorites,
            saved@.recent_stations,
            saved@.playlists,
            saved@.active_bitrate,
            saved@.last_sync_timestamp,
        ),
        tag_views(r.1.custom_tags@) == saved@.custom_tags,
        r.1.audio_sink@ == saved@.audio_sink,
        r.1.prefer_high_bitrate,
        r.1.hide_broken,
        r.1.auto_update,
        r.1.analyzer_type == AnalyzerType::BlocksWithHold,
{
    let SavedState {
        favorites,
        custom_tags,
        active_bitrate,
        recent_stations,
        last_sync_timestamp,
        playlists,
        audio_sink,
    } = saved;
    let prefs = AppPreferences::new(custom_tags, audio_sink);
    let ui = UIState::new(
        favorites,
        recent_stations,
        playlists,
        active_bitrate.as_str(),
        last_sync_timestamp,
    );
    (ui, prefs)
}

/// A session started from what another session saved has the same
/// favourites, recently played stations, playlists, bitrate filter, custom
/// tags and audio sink, and shows the same sync time once there was one.
pub proof fn lemma_save_restore(ui: UiModel, custom_tags: Seq<Seq<char>>, audio_sink: Seq<char>)
    ensures
        ({
            let s = saved_model(ui, custom_tags, audio_sink);
            let back = startup_model(
                s.favorites,
                s.recent_stations,
                s.playlists,
                s.active_bitrate,
                s.last_sync_timestamp,
            );
            &&& back.favorites == ui.favorites
            &&& back.recent_stations == ui.recent_stations
            &&& back.playlists == ui.playlists
            &&& back.active_bitrate == ui.active_bitrate
            &&& s.custom_tags == custom_tags
            &&& s.audio_sink == audio_sink
            &&& ui.last_update_timestamp.len() > 0 ==> back.last_update_timestamp
                == ui.last_update_timestamp
        }),
{
    lemma_bitrate_name_roundtrip(ui.active_bitrate);
}

} // verus!
