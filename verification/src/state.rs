//! What the player shows and remembers between user actions: the current
//! view, the fetched lists, favourites, recently played stations and
//! imported playlists, and the navigation history of one step.
//!
//! Each user action is a method that takes the state to the next state and
//! says which request or list the window has to act on.
use vstd::prelude::*;

use crate::api::{
    at_most, build_filtered_url, countries_url, filtered_url, languages_url, tags_url,
    BitrateFilterSetting, CategoryFilter, CategoryModel,
};
use crate::settings::{bitrate_of_name, bitrate_setting_from_name};
use crate::station::{
    item_views, station_views, BrowseItem, BrowseItemView, Station, StationView,
};
use crate::sort::{is_stable_sort, sorted_by_perm, stable_order};
use crate::text::{chars_eq, chars_of, lowercase_of, to_lowercase};

verus! {

// ---------------------------------------------------------------------------
// Views
// ---------------------------------------------------------------------------
/// What the main list shows.
#[derive(Debug)]
pub enum ViewType {
    Tags,
    Languages,
    Countries,
    Stations,
    Favorites,
    Recent,
    Playlists,
    CustomTag(String),
}

/// The model of a [`ViewType`].
pub ghost enum ViewModel {
    Tags,
    Languages,
    Countries,
    Stations,
    Favorites,
    Recent,
    Playlists,
    CustomTag(Seq<char>),
}

impl View for ViewType {
    type V = ViewModel;

    open spec fn view(&self) -> ViewModel {
        match self {
            ViewType::Tags => ViewModel::Tags,
            ViewType::Languages => ViewModel::Languages,
            ViewType::Countries => ViewModel::Countries,
            ViewType::Stations => ViewModel::Stations,
            ViewType::Favorites => ViewModel::Favorites,
            ViewType::Recent => ViewModel::Recent,
            ViewType::Playlists => ViewModel::Playlists,
            ViewType::CustomTag(t) => ViewModel::CustomTag(t@),
        }
    }
}

impl Clone for ViewType {
    fn clone(&self) -> (r: Self)
        ensures
            r@ == self@,
    {
        match self {
            ViewType::Tags => ViewType::Tags,
            ViewType::Languages => ViewType::Languages,
            ViewType::Countries => ViewType::Countries,
            ViewType::Stations => ViewType::Stations,
            ViewType::Favorites => ViewType::Favorites,
            ViewType::Recent => ViewType::Recent,
            ViewType::Playlists => ViewType::Playlists,
            ViewType::CustomTag(t) => ViewType::CustomTag(t.clone()),
        }
    }
}

/// A view that lists categories rather than stations.
pub open spec fn is_category_view(v: ViewModel) -> bool {
    v is Tags || v is Languages || v is Countries
}

impl ViewType {
    /// Whether the view lists stations: a fetch for it asks for stations.
    pub fn lists_stations(&self) -> (r: bool)
        ensures
            r == !is_category_view(self@),
    {
        !matches!(self, ViewType::Tags | ViewType::Languages | ViewType::Countries)
    }
}

/// Seconds between two background updates (six hours).
pub const AUTO_UPDATE_INTERVAL_SECS: u64 = 21600;

/// How many recently played stations are kept.
pub const MAX_RECENT: usize = 50;

// ---------------------------------------------------------------------------
// State
// ---------------------------------------------------------------------------
/// The browsing state of the player window.
pub struct UIState {
    pub current_view: ViewType,
    pub previous_view: Option<ViewType>,
    pub previous_url: String,
    pub categories: Vec<BrowseItem>,
    pub stations: Vec<Station>,
    pub favorites: Vec<Station>,
    pub recent_stations: Vec<Station>,
    pub playlists: Vec<Station>,
    pub current_index: Option<usize>,
    pub active_category: CategoryFilter,
    pub active_bitrate: BitrateFilterSetting,
    pub last_fetched_url: String,
    pub last_update_timestamp: String,
    pub total_elements_fetched: usize,
    pub last_stations_updated_count: usize,
    pub cached_tags: Option<Vec<BrowseItem>>,
    pub cached_languages: Option<Vec<BrowseItem>>,
    pub cached_countries: Option<Vec<BrowseItem>>,
    /// The direction of the next A-Z sort: ascending when set.
    pub sort_ascending: bool,
}

/// The model of an optional cached category list.
pub open spec fn cache_view(c: Option<Vec<BrowseItem>>) -> Option<Seq<BrowseItemView>> {
    match c {
        Some(v) => Some(item_views(v@)),
        None => None,
    }
}

/// The model of an optional view.
pub open spec fn opt_view(v: Option<ViewType>) -> Option<ViewModel> {
    match v {
        Some(x) => Some(x@),
        None => None,
    }
}

/// The model of a [`UIState`].
pub ghost struct UiModel {
    pub current_view: ViewModel,
    pub previous_view: Option<ViewModel>,
    pub previous_url: Seq<char>,
    pub categories: Seq<BrowseItemView>,
    pub stations: Seq<StationView>,
    pub favorites: Seq<StationView>,
    pub recent_stations: Seq<StationView>,
    pub playlists: Seq<StationView>,
    pub current_index: Option<usize>,
    pub active_category: CategoryModel,
    pub active_bitrate: BitrateFilterSetting,
    pub last_fetched_url: Seq<char>,
    pub last_update_timestamp: Seq<char>,
    pub total_elements_fetched: usize,
    pub last_stations_updated_count: usize,
    pub cached_tags: Option<Seq<BrowseItemView>>,
    pub cached_languages: Option<Seq<BrowseItemView>>,
    pub cached_countries: Option<Seq<BrowseItemView>>,
    pub sort_ascending: bool,
}

impl View for UIState {
    type V = UiModel;

    open spec fn view(&self) -> UiModel {
        UiModel {
            current_view: self.current_view@,
            previous_view: opt_view(self.previous_view),
            previous_url: self.previous_url@,
            categories: item_views(self.categories@),
            stations: station_views(self.stations@),
            favorites: station_views(self.favorites@),
            recent_stations: station_views(self.recent_stations@),
            playlists: station_views(self.playlists@),
            current_index: self.current_index,
            active_category: self.active_category@,
            active_bitrate: self.active_bitrate,
            last_fetched_url: self.last_fetched_url@,
            last_update_timestamp: self.last_update_timestamp@,
            total_elements_fetched: self.total_elements_fetched,
            last_stations_updated_count: self.last_stations_updated_count,
            cached_tags: cache_view(self.cached_tags),
            cached_languages: cache_view(self.cached_languages),
            cached_countries: cache_view(self.cached_countries),
            sort_ascending: self.sort_ascending,
        }
    }
}

// ---------------------------------------------------------------------------
// Station lists
// ---------------------------------------------------------------------------
/// The station list that a view plays from: its own list for favourites,
/// recently played and playlists, the fetched stations otherwise.
pub open spec fn active_list(m: UiModel) -> Seq<StationView> {
    match m.current_view {
        ViewModel::Favorites => m.favorites,
        ViewModel::Recent => m.recent_stations,
        ViewModel::Playlists => m.playlists,
        _ => m.stations,
    }
}

/// `s` without the stations that have the id `uuid`, in order.
pub open spec fn without_uuid(s: Seq<StationView>, uuid: Seq<char>) -> Seq<StationView>
    decreases s.len(),
{
    if s.len() == 0 {
        seq![]
    } else {
        let rest = without_uuid(s.drop_last(), uuid);
        if s.last().stationuuid != uuid {
            rest.push(s.last())
        } else {
            rest
        }
    }
}

/// The recently played list after `s` is played: `s` first, no other entry
/// with its id, at most [`MAX_RECENT`] entries.
pub open spec fn remembered(recent: Seq<StationView>, s: StationView) -> Seq<StationView> {
    at_most(seq![s] + without_uuid(recent, s.stationuuid), MAX_RECENT as int)
}

/// No two stations of `s` have the same id.
pub open spec fn distinct_uuids(s: Seq<StationView>) -> bool {
    forall|i: int, j: int|
        0 <= i < s.len() && 0 <= j < s.len() && i != j ==> s[i].stationuuid != s[j].stationuuid
}

/// Some station of `s` has the id `uuid`.
pub open spec fn has_uuid(s: Seq<StationView>, uuid: Seq<char>) -> bool {
    exists|i: int| 0 <= i < s.len() && s[i].stationuuid == uuid
}

/// The position of the first station of `s` with the id `uuid`, or `s.len()`.
pub open spec fn uuid_position(s: Seq<StationView>, uuid: Seq<char>) -> int
    decreases s.len(),
{
    if s.len() == 0 {
        0
    } else if s[0].stationuuid == uuid {
        0
    } else {
        1 + uuid_position(s.drop_first(), uuid)
    }
}

pub proof fn lemma_uuid_position(s: Seq<StationView>, uuid: Seq<char>)
    ensures
        0 <= uuid_position(s, uuid) <= s.len(),
        uuid_position(s, uuid) < s.len() ==> s[uuid_position(s, uuid)].stationuuid == uuid,
        forall|j: int| 0 <= j < uuid_position(s, uuid) ==> s[j].stationuuid != uuid,
        has_uuid(s, uuid) <==> uuid_position(s, uuid) < s.len(),
    decreases s.len(),
{
    if s.len() > 0 && s[0].stationuuid != uuid {
        lemma_uuid_position(s.drop_first(), uuid);
        assert forall|j: int| 0 <= j < uuid_position(s, uuid) implies s[j].stationuuid
            != uuid by {
            if j > 0 {
                assert(s[j] == s.drop_first()[j - 1]);
            }
        }
        if has_uuid(s, uuid) {
            let k = choose|k: int| 0 <= k < s.len() && s[k].stationuuid == uuid;
            assert(s.drop_first()[k - 1].stationuuid == uuid);
        }
        if uuid_position(s, uuid) < s.len() {
            assert(s[uuid_position(s, uuid)] == s.drop_first()[uuid_position(
                s.drop_first(),
                uuid,
            )]);
        }
    }
}

pub proof fn lemma_without_uuid(s: Seq<StationView>, uuid: Seq<char>)
    ensures
        without_uuid(s, uuid).len() <= s.len(),
        forall|i: int|
            0 <= i < without_uuid(s, uuid).len() ==> (#[trigger] without_uuid(s, uuid)[i]).stationuuid
                != uuid && s.contains(without_uuid(s, uuid)[i]),
        distinct_uuids(s) ==> distinct_uuids(without_uuid(s, uuid)),
    decreases s.len(),
{
    if s.len() > 0 {
        let p = s.drop_last();
        lemma_without_uuid(p, uuid);
        let w = without_uuid(p, uuid);
        assert forall|i: int| 0 <= i < w.len() implies s.contains(#[trigger] w[i]) by {
            let k = choose|k: int| 0 <= k < p.len() && p[k] == w[i];
            assert(s[k] == w[i]);
        }
        assert(s[s.len() - 1] == s.last());
        if distinct_uuids(s) {
            assert(distinct_uuids(p)) by {
                assert forall|i: int, j: int|
                    0 <= i < p.len() && 0 <= j < p.len() && i != j implies p[i].stationuuid
                    != p[j].stationuuid by {
                    assert(p[i] == s[i] && p[j] == s[j]);
                }
            }
            if s.last().stationuuid != uuid {
                assert forall|i: int| 0 <= i < w.len() implies w[i].stationuuid
                    != s.last().stationuuid by {
                    let k = choose|k: int| 0 <= k < p.len() && p[k] == w[i];
                    assert(s[k] == w[i]);
                }
                let w2 = w.push(s.last());
                assert forall|i: int, j: int|
                    0 <= i < w2.len() && 0 <= j < w2.len() && i != j implies w2[i].stationuuid
                    != w2[j].stationuuid by {
                    if i < w.len() && j < w.len() {
                        assert(w2[i] == w[i] && w2[j] == w[j]);
                    } else if i < w.len() {
                        assert(w2[i] == w[i]);
                    } else if j < w.len() {
                        assert(w2[j] == w[j]);
                    }
                }
            }
        }
    }
}

/// Playing a station keeps the recently played list free of repeated ids:
/// the station comes first, at most [`MAX_RECENT`] stations stay, and every
/// other entry is an earlier entry with another id.
pub proof fn lemma_remembered(recent: Seq<StationView>, s: StationView)
    requires
        distinct_uuids(recent),
    ensures
        distinct_uuids(remembered(recent, s)),
        remembered(recent, s).len() <= MAX_RECENT,
        remembered(recent, s).len() >= 1,
        remembered(recent, s)[0] == s,
        forall|i: int|
            1 <= i < remembered(recent, s).len() ==> recent.contains(
                #[trigger] remembered(recent, s)[i],
            ) && remembered(recent, s)[i].stationuuid != s.stationuuid,
{
    lemma_without_uuid(recent, s.stationuuid);
    let w = without_uuid(recent, s.stationuuid);
    let full = seq![s] + w;
    let r = remembered(recent, s);
    assert forall|i: int| 0 <= i < r.len() implies #[trigger] r[i] == full[i] by {}
    assert forall|i: int| 1 <= i < full.len() implies full[i] == w[i - 1] by {}
    assert forall|i: int, j: int|
        0 <= i < r.len() && 0 <= j < r.len() && i != j implies r[i].stationuuid
        != r[j].stationuuid by {
        assert(r[i] == full[i] && r[j] == full[j]);
        if i > 0 {
            assert(full[i] == w[i - 1]);
        }
        if j > 0 {
            assert(full[j] == w[j - 1]);
        }
    }
    assert forall|i: int| 1 <= i < r.len() implies recent.contains(#[trigger] r[i])
        && r[i].stationuuid != s.stationuuid by {
        assert(r[i] == full[i]);
        assert(full[i] == w[i - 1]);
    }
}

/// The positions in `s` of the stations whose id is not `uuid`, in order.
pub open spec fn kept_positions(s: Seq<StationView>, uuid: Seq<char>) -> Seq<int>
    decreases s.len(),
{
    if s.len() == 0 {
        seq![]
    } else {
        let rest = kept_positions(s.drop_last(), uuid);
        if s.last().stationuuid != uuid {
            rest.push(s.len() - 1)
        } else {
            rest
        }
    }
}

proof fn lemma_kept_positions(s: Seq<StationView>, uuid: Seq<char>)
    ensures
        kept_positions(s, uuid).len() == without_uuid(s, uuid).len(),
        forall|i: int|
            0 <= i < kept_positions(s, uuid).len() ==> 0 <= #[trigger] kept_positions(s, uuid)[i]
                < s.len() && without_uuid(s, uuid)[i] == s[kept_positions(s, uuid)[i]],
        forall|i: int, j: int|
            0 <= i < j < kept_positions(s, uuid).len() ==> kept_positions(s, uuid)[i]
                < kept_positions(s, uuid)[j],
        forall|k: int|
            0 <= k < s.len() && s[k].stationuuid != uuid ==> kept_positions(s, uuid).contains(k),
    decreases s.len(),
{
    if s.len() > 0 {
        let p = s.drop_last();
        lemma_kept_positions(p, uuid);
        let kp = kept_positions(p, uuid);
        let w = without_uuid(p, uuid);
        assert forall|i: int| 0 <= i < kp.len() implies p[kp[i]] == s[kp[i]] by {}
        assert forall|k: int| 0 <= k < s.len() && s[k].stationuuid != uuid implies kept_positions(
            s,
            uuid,
        ).contains(k) by {
            if k < p.len() {
                assert(p[k] == s[k]);
                assert(kp.contains(k));
                let i = choose|i: int| 0 <= i < kp.len() && kp[i] == k;
                if s.last().stationuuid != uuid {
                    assert(kept_positions(s, uuid) == kp.push(s.len() - 1));
                    assert(kept_positions(s, uuid)[i] == k);
                } else {
                    assert(kept_positions(s, uuid) == kp);
                }
            } else {
                assert(s[k] == s.last());
                assert(kept_positions(s, uuid)[kp.len() as int] == k);
            }
        }
    }
}

/// Playing a station keeps the other recently played stations in their old
/// order: after the station itself come the earlier entries with another
/// id, at strictly increasing positions of the old list, each of them as
/// long as the list has room.
pub proof fn lemma_remembered_order(recent: Seq<StationView>, s: StationView)
    ensures
        ({
            let r = remembered(recent, s);
            let p = kept_positions(recent, s.stationuuid);
            &&& r[0] == s
            &&& r.len() == if p.len() + 1 <= MAX_RECENT {
                p.len() + 1int
            } else {
                MAX_RECENT as int
            }
            &&& forall|i: int|
                1 <= i < r.len() ==> 0 <= p[i - 1] < recent.len() && #[trigger] r[i] == recent[p[i
                    - 1]]
            &&& forall|i: int, j: int| 0 <= i < j < p.len() ==> p[i] < p[j]
            &&& forall|k: int|
                0 <= k < recent.len() && recent[k].stationuuid != s.stationuuid ==> p.contains(k)
        }),
{
    lemma_kept_positions(recent, s.stationuuid);
    let w = without_uuid(recent, s.stationuuid);
    let full = seq![s] + w;
    let r = remembered(recent, s);
    let p = kept_positions(recent, s.stationuuid);
    assert(r[0] == full[0]);
    assert forall|i: int| 1 <= i < r.len() implies 0 <= p[i - 1] < recent.len() && #[trigger] r[i]
        == recent[p[i - 1]] by {
        assert(r[i] == full[i]);
        assert(full[i] == w[i - 1]);
    }
}

// ---------------------------------------------------------------------------
// Favourites
// ---------------------------------------------------------------------------
/// The favourites after the star button for `s`: the first favourite with
/// its id goes, or else `s` is added last.
pub open spec fn toggled(favs: Seq<StationView>, s: StationView) -> Seq<StationView> {
    let p = uuid_position(favs, s.stationuuid);
    if p < favs.len() {
        favs.remove(p)
    } else {
        favs.push(s)
    }
}

proof fn lemma_uuid_position_push(a: Seq<StationView>, x: StationView)
    requires
        !has_uuid(a, x.stationuuid),
    ensures
        uuid_position(a.push(x), x.stationuuid) == a.len(),
    decreases a.len(),
{
    if a.len() > 0 {
        assert(a.push(x).drop_first() =~= a.drop_first().push(x));
        assert(!has_uuid(a.drop_first(), x.stationuuid)) by {
            if has_uuid(a.drop_first(), x.stationuuid) {
                let k = choose|k: int|
                    0 <= k < a.drop_first().len() && a.drop_first()[k].stationuuid
                        == x.stationuuid;
                assert(a[k + 1].stationuuid == x.stationuuid);
            }
        }
        assert(a[0].stationuuid != x.stationuuid);
        assert(a.push(x)[0] == a[0]);
        lemma_uuid_position_push(a.drop_first(), x);
    } else {
        assert(a.push(x)[0] == x);
    }
}

/// The star button flips whether a station is a favourite, and keeps the
/// favourites free of repeated ids.
pub proof fn lemma_toggle_flips(favs: Seq<StationView>, s: StationView)
    requires
        distinct_uuids(favs),
    ensures
        has_uuid(toggled(favs, s), s.stationuuid) == !has_uuid(favs, s.stationuuid),
        distinct_uuids(toggled(favs, s)),
{
    lemma_uuid_position(favs, s.stationuuid);
    let p = uuid_position(favs, s.stationuuid);
    let t = toggled(favs, s);
    if p < favs.len() {
        assert forall|i: int| 0 <= i < t.len() implies #[trigger] t[i] == if i < p {
            favs[i]
        } else {
            favs[i + 1]
        } by {}
        if has_uuid(t, s.stationuuid) {
            let k = choose|k: int| 0 <= k < t.len() && t[k].stationuuid == s.stationuuid;
            if k < p {
                assert(favs[k].stationuuid == favs[p].stationuuid);
            } else {
                assert(favs[k + 1].stationuuid == favs[p].stationuuid);
            }
        }
        assert forall|i: int, j: int|
            0 <= i < t.len() && 0 <= j < t.len() && i != j implies t[i].stationuuid
            != t[j].stationuuid by {
            let ii = if i < p {
                i
            } else {
                i + 1
            };
            let jj = if j < p {
                j
            } else {
                j + 1
            };
            assert(t[i] == favs[ii] && t[j] == favs[jj]);
        }
    } else {
        assert(t[favs.len() as int] == s);
        assert forall|i: int, j: int|
            0 <= i < t.len() && 0 <= j < t.len() && i != j implies t[i].stationuuid
            != t[j].stationuuid by {
            if i < favs.len() && j < favs.len() {
                assert(t[i] == favs[i] && t[j] == favs[j]);
            } else if i < favs.len() {
                assert(t[i] == favs[i]);
                assert(!(favs[i].stationuuid == s.stationuuid));
            } else if j < favs.len() {
                assert(t[j] == favs[j]);
                assert(!(favs[j].stationuuid == s.stationuuid));
            }
        }
    }
}

/// Starring a station that is no favourite and then unstarring it leaves
/// the favourites as they were.
pub proof fn lemma_toggle_twice(favs: Seq<StationView>, s: StationView)
    requires
        !has_uuid(favs, s.stationuuid),
    ensures
        toggled(toggled(favs, s), s) == favs,
{
    lemma_uuid_position(favs, s.stationuuid);
    lemma_uuid_position_push(favs, s);
    assert(favs.push(s).remove(favs.len() as int) =~= favs);
}

/// Removing a favourite by id leaves no favourite with that id, and keeps
/// the favourites free of repeated ids.
pub proof fn lemma_remove_favorite(favs: Seq<StationView>, uuid: Seq<char>)
    ensures
        !has_uuid(without_uuid(favs, uuid), uuid),
        distinct_uuids(favs) ==> distinct_uuids(without_uuid(favs, uuid)),
{
    lemma_without_uuid(favs, uuid);
}

fn station_list(stations: &Vec<Station>) -> (r: Vec<Station>)
    ensures
        station_views(r@) == station_views(stations@),
{
    let mut out: Vec<Station> = Vec::new();
    for i in 0..stations.len()
        invariant
            station_views(out@) == station_views(stations@).subrange(0, i as int),
    {
        let ghost before = station_views(out@);
        out.push(stations[i].clone());
        proof {
            assert(station_views(out@) =~= before.push(stations@[i as int]@));
            assert(station_views(stations@).subrange(0, i + 1) =~= station_views(
                stations@,
            ).subrange(0, i as int).push(stations@[i as int]@));
        }
    }
    proof {
        assert(station_views(stations@).subrange(0, stations.len() as int) =~= station_views(
            stations@,
        ));
    }
    out
}

fn items_list(items: &Vec<BrowseItem>) -> (r: Vec<BrowseItem>)
    ensures
        item_views(r@) == item_views(items@),
{
    let mut out: Vec<BrowseItem> = Vec::new();
    for i in 0..items.len()
        invariant
            item_views(out@) == item_views(items@).subrange(0, i as int),
    {
        let ghost before = item_views(out@);
        out.push(items[i].clone());
        proof {
            assert(item_views(out@) =~= before.push(items@[i as int]@));
            assert(item_views(items@).subrange(0, i + 1) =~= item_views(items@).subrange(
                0,
                i as int,
            ).push(items@[i as int]@));
        }
    }
    proof {
        assert(item_views(items@).subrange(0, items.len() as int) =~= item_views(items@));
    }
    out
}

fn strs_equal(a: &String, b: &String) -> (r: bool)
    ensures
        r == (a@ == b@),
{
    chars_eq(&chars_of(a.as_str()), &chars_of(b.as_str()))
}

/// The recently played list after `station` is played.
pub fn remember_station(recent: &mut Vec<Station>, station: &Station)
    ensures
        station_views(final(recent)@) == remembered(station_views(old(recent)@), station@),
{
    let ghost all = station_views(recent@);
    let mut kept: Vec<Station> = Vec::new();
    let n = recent.len();
    for i in 0..n
        invariant
            n == recent.len(),
            all == station_views(recent@),
            station_views(kept@) == without_uuid(all.subrange(0, i as int), station@.stationuuid),
    {
        proof {
            assert(all.subrange(0, i + 1).drop_last() =~= all.subrange(0, i as int));
            assert(all.subrange(0, i + 1).last() == recent@[i as int]@);
        }
        if !strs_equal(&recent[i].stationuuid, &station.stationuuid) {
            let ghost before = station_views(kept@);
            kept.push(recent[i].clone());
            proof {
                assert(station_views(kept@) =~= before.push(recent@[i as int]@));
            }
        }
    }
    proof {
        assert(all.subrange(0, n as int) =~= all);
    }
    let ghost w = station_views(kept@);
    kept.insert(0, station.clone());
    proof {
        assert(station_views(kept@) =~= seq![station@] + w);
    }
    if kept.len() > MAX_RECENT {
        let ghost full = station_views(kept@);
        kept.truncate(MAX_RECENT);
        proof {
            assert(station_views(kept@) =~= full.subrange(0, MAX_RECENT as int));
        }
    }
    *recent = kept;
}

// ---------------------------------------------------------------------------
// Actions for the window
// ---------------------------------------------------------------------------
/// What activating a row of the main list asks of the window.
#[derive(Debug)]
pub enum RowAction {
    /// Play the station at this position of the shown list.
    Play(usize),
    /// Fetch the stations of the chosen category from this URL.
    FetchStations(String),
}

/// What a navigation step asks of the window.
#[derive(Debug)]
pub enum NavAction {
    /// Nothing to show anew.
    Nothing,
    /// Show this category list (from the cache).
    ShowCategories(ViewType, Vec<BrowseItem>),
    /// Show this station list.
    ShowStations(Vec<Station>),
    /// Fetch from this URL; `stations` tells whether stations or categories
    /// come back, and `view` is the view they are for.
    Fetch { url: String, stations: bool, view: ViewType },
}

/// The model of a [`NavAction`].
pub ghost enum NavModel {
    Nothing,
    ShowCategories(ViewModel, Seq<BrowseItemView>),
    ShowStations(Seq<StationView>),
    Fetch { url: Seq<char>, stations: bool, view: ViewModel },
}

impl View for NavAction {
    type V = NavModel;

    open spec fn view(&self) -> NavModel {
        match self {
            NavAction::Nothing => NavModel::Nothing,
            NavAction::ShowCategories(v, items) => NavModel::ShowCategories(v@, item_views(items@)),
            NavAction::ShowStations(s) => NavModel::ShowStations(station_views(s@)),
            NavAction::Fetch { url, stations, view } => NavModel::Fetch {
                url: url@,
                stations: *stations,
                view: view@,
            },
        }
    }
}

/// The cached list of a category view.
pub open spec fn cached_list(m: UiModel, v: ViewModel) -> Option<Seq<BrowseItemView>> {
    match v {
        ViewModel::Tags => m.cached_tags,
        ViewModel::Languages => m.cached_languages,
        ViewModel::Countries => m.cached_countries,
        _ => None,
    }
}

/// The URL of the list of a category view.
pub open spec fn category_list_url(v: ViewModel) -> Seq<char> {
    match v {
        ViewModel::Tags => tags_url(),
        ViewModel::Languages => languages_url(),
        _ => countries_url(),
    }
}

/// The heading over a category list.
pub open spec fn category_heading(v: ViewModel) -> Seq<char> {
    match v {
        ViewModel::Tags => "Browse by Tag"@,
        ViewModel::Languages => "Browse by Language"@,
        ViewModel::Countries => "Browse by Country"@,
        _ => ""@,
    }
}

/// The timestamp that a fresh start shows before any fetch.
pub open spec fn startup_timestamp(saved: Seq<char>) -> Seq<char> {
    if saved.len() == 0 {
        "Never Gathered"@
    } else {
        saved
    }
}

/// The state a session starts in, from what was saved.
pub open spec fn startup_model(
    favorites: Seq<StationView>,
    recent_stations: Seq<StationView>,
    playlists: Seq<StationView>,
    active_bitrate: Seq<char>,
    last_sync_timestamp: Seq<char>,
) -> UiModel {
    UiModel {
        current_view: ViewModel::Tags,
        previous_view: None,
        previous_url: seq![],
        categories: seq![],
        stations: seq![],
        favorites: favorites,
        recent_stations: recent_stations,
        playlists: playlists,
        current_index: None,
        active_category: CategoryModel::Any,
        active_bitrate: bitrate_of_name(active_bitrate),
        last_fetched_url: tags_url(),
        last_update_timestamp: startup_timestamp(last_sync_timestamp),
        total_elements_fetched: 0,
        last_stations_updated_count: 0,
        cached_tags: None,
        cached_languages: None,
        cached_countries: None,
        sort_ascending: true,
    }
}

/// How many stations of `s` passed the directory's last check.
pub open spec fn working_count(s: Seq<StationView>) -> nat
    decreases s.len(),
{
    if s.len() == 0 {
        0
    } else {
        working_count(s.drop_last()) + if s.last().lastcheckok == 1 {
            1nat
        } else {
            0nat
        }
    }
}

/// The time shown for a station fetch: the directory's last change, or the
/// local time when the directory did not tell it.
pub open spec fn shown_sync_time(server: Seq<char>, now: Seq<char>) -> Seq<char> {
    if server == "Unknown"@ || server.len() == 0 {
        now
    } else {
        server
    }
}

/// The view that fetched stations are shown in: a category view gives way
/// to the station view.
pub open spec fn station_view_after(v: ViewModel) -> ViewModel {
    if is_category_view(v) {
        ViewModel::Stations
    } else {
        v
    }
}

/// The heading over fetched stations: the custom tag, or the category, or
/// the saved list that was shown before; none when nothing applies.
pub open spec fn stations_heading(
    shown: ViewModel,
    category: CategoryModel,
    before: ViewModel,
) -> Option<Seq<char>> {
    match shown {
        ViewModel::CustomTag(t) => Some("Now Browsing Custom Tags > "@ + t),
        _ => match category {
            CategoryModel::Tag(t) => Some("Now browsing: "@ + t),
            CategoryModel::Language(l) => Some("Language: "@ + l),
            CategoryModel::Country(c) => Some("Country: "@ + c),
            CategoryModel::Any => match before {
                ViewModel::Favorites => Some("Favorite Stations"@),
                ViewModel::Recent => Some("Recently Played"@),
                ViewModel::Playlists => Some("Imported Playlist"@),
                _ => None,
            },
        },
    }
}


// ---------------------------------------------------------------------------
// Navigation steps
// ---------------------------------------------------------------------------
/// The category that a row of a category view stands for.
pub open spec fn row_category(m: UiModel, index: int) -> CategoryModel {
    let name = m.categories[index].name;
    match m.current_view {
        ViewModel::Tags => CategoryModel::Tag(name),
        ViewModel::Languages => CategoryModel::Language(name),
        _ => CategoryModel::Country(name),
    }
}

/// After choosing a category row: the view is remembered, the category
/// filters the stations, which are to be fetched.
pub open spec fn category_row_state(m: UiModel, index: int) -> UiModel {
    let cat = row_category(m, index);
    UiModel {
        previous_view: Some(m.current_view),
        previous_url: m.last_fetched_url,
        active_category: cat,
        last_fetched_url: filtered_url(cat, m.active_bitrate),
        ..m
    }
}

/// After opening a custom tag: the view is remembered, the tag filters the
/// stations and is the view.
pub open spec fn custom_tag_state(m: UiModel, tag: Seq<char>) -> UiModel {
    UiModel {
        previous_view: Some(m.current_view),
        previous_url: m.last_fetched_url,
        active_category: CategoryModel::Tag(tag),
        current_view: ViewModel::CustomTag(tag),
        last_fetched_url: filtered_url(CategoryModel::Tag(tag), m.active_bitrate),
        ..m
    }
}

/// After a search by name: the view is remembered, the station view shows
/// the matches, no category filters them.
pub open spec fn search_state(m: UiModel, query: Seq<char>) -> UiModel {
    UiModel {
        previous_view: Some(m.current_view),
        previous_url: m.last_fetched_url,
        current_view: ViewModel::Stations,
        last_fetched_url: crate::api::by_name_url(query),
        active_category: CategoryModel::Any,
        ..m
    }
}

/// After the back button: the remembered view is shown again and forgotten.
/// A custom tag or the station view fetch their stations anew with the
/// current bitrate band; the saved lists drop the category filter; a
/// category list goes back to the URL it came from.
pub open spec fn back_state(o: UiModel) -> UiModel {
    match o.previous_view {
        None => o,
        Some(prev) => {
            let m = UiModel { previous_view: None, ..o };
            match prev {
                ViewModel::CustomTag(t) => UiModel {
                    active_category: CategoryModel::Tag(t),
                    current_view: prev,
                    last_fetched_url: filtered_url(CategoryModel::Tag(t), o.active_bitrate),
                    ..m
                },
                ViewModel::Stations => UiModel {
                    current_view: prev,
                    last_fetched_url: filtered_url(o.active_category, o.active_bitrate),
                    ..m
                },
                ViewModel::Favorites | ViewModel::Recent | ViewModel::Playlists => UiModel {
                    current_view: prev,
                    active_category: CategoryModel::Any,
                    last_fetched_url: o.previous_url,
                    ..m
                },
                _ => UiModel { current_view: prev, last_fetched_url: o.previous_url, ..m },
            }
        },
    }
}

/// What the back button asks of the window.
pub open spec fn back_action(o: UiModel) -> NavModel {
    match o.previous_view {
        None => NavModel::Nothing,
        Some(prev) => match prev {
            ViewModel::CustomTag(t) => NavModel::Fetch {
                url: filtered_url(CategoryModel::Tag(t), o.active_bitrate),
                stations: true,
                view: prev,
            },
            ViewModel::Stations => NavModel::Fetch {
                url: filtered_url(o.active_category, o.active_bitrate),
                stations: true,
                view: prev,
            },
            ViewModel::Favorites => NavModel::ShowStations(o.favorites),
            ViewModel::Recent => NavModel::ShowStations(o.recent_stations),
            ViewModel::Playlists => NavModel::ShowStations(o.playlists),
            _ => match cached_list(o, prev) {
                Some(items) => NavModel::ShowCategories(prev, items),
                None => NavModel::Fetch { url: o.previous_url, stations: false, view: prev },
            },
        },
    }
}

/// Back after a step that remembers the view (a category row, a custom tag,
/// a search) shows the view of before that step again, with nothing left to
/// go back to; the saved lists are untouched.
pub proof fn lemma_back_returns(o: UiModel, tag: Seq<char>, query: Seq<char>, index: int)
    ensures
        back_state(custom_tag_state(o, tag)).current_view == o.current_view,
        back_state(custom_tag_state(o, tag)).previous_view is None,
        back_state(search_state(o, query)).current_view == o.current_view,
        back_state(search_state(o, query)).previous_view is None,
        back_state(category_row_state(o, index)).current_view == o.current_view,
        back_state(category_row_state(o, index)).previous_view is None,
        back_state(custom_tag_state(o, tag)).favorites == o.favorites,
        back_state(search_state(o, query)).favorites == o.favorites,
        back_state(category_row_state(o, index)).favorites == o.favorites,
{
}

/// Back returns to the remembered view and asks the window for what that
/// view lists: a saved list (favourites, recently played, playlists) is
/// shown from the list the view plays from; a station view or custom tag is
/// fetched anew, as stations, from the URL the state now holds; a category
/// list is shown from its cache when it has one, and fetched as categories
/// from the URL the state now holds otherwise. The saved lists are kept.
/// With no view to go back to, nothing happens.
pub proof fn lemma_back_shows_returned_view(o: UiModel)
    ensures
        o.previous_view is None ==> back_state(o) == o && back_action(o) == NavModel::Nothing,
        o.previous_view matches Some(p) ==> {
            let n = back_state(o);
            &&& n.current_view == p
            &&& n.previous_view is None
            &&& n.favorites == o.favorites
            &&& n.recent_stations == o.recent_stations
            &&& n.playlists == o.playlists
            &&& (p is Favorites || p is Recent || p is Playlists) ==> back_action(o)
                == NavModel::ShowStations(active_list(n))
            &&& (p is Stations || p is CustomTag) ==> back_action(o) == (NavModel::Fetch {
                url: n.last_fetched_url,
                stations: true,
                view: n.current_view,
            })
            &&& is_category_view(p) ==> back_action(o) == match cached_list(n, p) {
                Some(items) => NavModel::ShowCategories(p, items),
                None => NavModel::Fetch { url: n.last_fetched_url, stations: false, view: p },
            }
            &&& p matches ViewModel::CustomTag(tag) ==> n.active_category == CategoryModel::Tag(tag)
                && n.last_fetched_url == filtered_url(CategoryModel::Tag(tag), o.active_bitrate)
            &&& p is Stations ==> n.active_category == o.active_category && n.last_fetched_url
                == filtered_url(o.active_category, o.active_bitrate)
            &&& (p is Favorites || p is Recent || p is Playlists) ==> n.active_category
                == CategoryModel::Any && n.last_fetched_url == o.previous_url
            &&& is_category_view(p) ==> n.active_category == o.active_category
                && n.last_fetched_url == o.previous_url
        },
{
}

/// Back from a category list that came from another category list shows
/// the earlier list from where it was fetched.
pub proof fn lemma_back_to_category_list(o: UiModel, index: int)
    requires
        is_category_view(o.current_view),
    ensures
        back_state(category_row_state(o, index)).last_fetched_url == o.last_fetched_url,
        back_action(category_row_state(o, index)) == match cached_list(o, o.current_view) {
            Some(items) => NavModel::ShowCategories(o.current_view, items),
            None => NavModel::Fetch {
                url: o.last_fetched_url,
                stations: false,
                view: o.current_view,
            },
        },
{
}

impl UIState {
    /// The state a session starts in, with the saved lists, the saved bitrate
    /// filter name and the saved time of the last directory sync.
    pub fn new(
        favorites: Vec<Station>,
        recent_stations: Vec<Station>,
        playlists: Vec<Station>,
        active_bitrate: &str,
        last_sync_timestamp: String,
    ) -> (r: UIState)
        ensures
            r@ == startup_model(
                station_views(favorites@),
                station_views(recent_stations@),
                station_views(playlists@),
                active_bitrate@,
                last_sync_timestamp@,
            ),
    {
        let ts = if last_sync_timestamp.as_str().is_empty() {
            String::from_str("Never Gathered")
        } else {
            last_sync_timestamp
        };
        let r = UIState {
            current_view: ViewType::Tags,
            previous_view: None,
            previous_url: String::new(),
            categories: Vec::new(),
            stations: Vec::new(),
            favorites,
            recent_stations,
            playlists,
            current_index: None,
            active_category: CategoryFilter::Any,
            active_bitrate: bitrate_setting_from_name(active_bitrate),
            last_fetched_url: crate::api::tags_list_url(),
            last_update_timestamp: ts,
            total_elements_fetched: 0,
            last_stations_updated_count: 0,
            cached_tags: None,
            cached_languages: None,
            cached_countries: None,
            sort_ascending: true,
        };
        proof {
            assert(item_views(r.categories@) =~= Seq::<BrowseItemView>::empty());
            assert(station_views(r.stations@) =~= Seq::<StationView>::empty());
        }
        r
    }

    /// The length of the list that the current view plays from.
    pub fn active_list_len(&self) -> (r: usize)
        ensures
            r == active_list(self@).len(),
    {
        match self.current_view {
            ViewType::Favorites => self.favorites.len(),
            ViewType::Recent => self.recent_stations.len(),
            ViewType::Playlists => self.playlists.len(),
            _ => self.stations.len(),
        }
    }

    /// Chooses the station at `index` of the list the current view plays
    /// from, and puts it first among the recently played stations. Gives
    /// `None`, and changes nothing, when the list is shorter.
    pub fn select_station(&mut self, index: usize) -> (r: Option<Station>)
        ensures
            match r {
                Some(s) => index < active_list(old(self)@).len() && s@ == active_list(
                    old(self)@,
                )[index as int] && final(self)@ == (UiModel {
                    current_index: Some(index),
                    recent_stations: remembered(old(self)@.recent_stations, s@),
                    ..old(self)@
                }),
                None => index >= active_list(old(self)@).len() && final(self)@ == old(self)@,
            },
    {
        let station = match self.current_view {
            ViewType::Favorites => {
                if index >= self.favorites.len() {
                    return None;
                }
                self.favorites[index].clone()
            },
            ViewType::Recent => {
                if index >= self.recent_stations.len() {
                    return None;
                }
                self.recent_stations[index].clone()
            },
            ViewType::Playlists => {
                if index >= self.playlists.len() {
                    return None;
                }
                self.playlists[index].clone()
            },
            _ => {
                if index >= self.stations.len() {
                    return None;
                }
                self.stations[index].clone()
            },
        };
        self.current_index = Some(index);
        remember_station(&mut self.recent_stations, &station);
        Some(station)
    }

    /// Whether a station with the id `uuid` is a favourite.
    pub fn is_favorite(&self, uuid: &str) -> (r: bool)
        ensures
            r == has_uuid(self@.favorites, uuid@),
    {
        let u = chars_of(uuid);
        for i in 0..self.favorites.len()
            invariant
                u@ == uuid@,
                forall|j: int| 0 <= j < i ==> self@.favorites[j].stationuuid != uuid@,
        {
            if chars_eq(&chars_of(self.favorites[i].stationuuid.as_str()), &u) {
                proof {
                    assert(self@.favorites[i as int].stationuuid == uuid@);
                }
                return true;
            }
        }
        false
    }

    /// The station to try after the one at `index` failed to play: the next
    /// one of the list the current view plays from, if there is one.
    pub fn next_after_failure(&self, index: usize) -> (r: Option<usize>)
        ensures
            r == if index + 1 < active_list(self@).len() {
                Some((index + 1) as usize)
            } else {
                None::<usize>
            },
    {
        let total = self.active_list_len();
        if total > 0 && index < total - 1 {
            Some(index + 1)
        } else {
            None
        }
    }

    /// The station that the previous-track button plays, in a station view.
    pub fn prev_index(&self) -> (r: Option<usize>)
        ensures
            r == match self.current_index {
                Some(i) => if !is_category_view(self@.current_view) && i > 0 {
                    Some((i - 1) as usize)
                } else {
                    None::<usize>
                },
                None => None,
            },
    {
        if !self.current_view.lists_stations() {
            return None;
        }
        match self.current_index {
            Some(i) => if i > 0 {
                Some(i - 1)
            } else {
                None
            },
            None => None,
        }
    }

    /// The station that the next-track button plays, in a station view; it
    /// is bounded by the fetched station list whatever the view.
    pub fn next_index(&self) -> (r: Option<usize>)
        ensures
            r == match self.current_index {
                Some(i) => if !is_category_view(self@.current_view) && i + 1 < self@.stations.len() {
                    Some((i + 1) as usize)
                } else {
                    None::<usize>
                },
                None => None,
            },
    {
        if !self.current_view.lists_stations() {
            return None;
        }
        match self.current_index {
            Some(i) => if self.stations.len() > 0 && i < self.stations.len() - 1 {
                Some(i + 1)
            } else {
                None
            },
            None => None,
        }
    }

    /// The station that the play button starts when nothing is playing yet,
    /// in a station view; it is bounded by the fetched station list.
    pub fn resume_index(&self) -> (r: Option<usize>)
        ensures
            r == match self.current_index {
                Some(i) => if !is_category_view(self@.current_view) && i < self@.stations.len() {
                    Some(i)
                } else {
                    None::<usize>
                },
                None => None,
            },
    {
        if !self.current_view.lists_stations() {
            return None;
        }
        match self.current_index {
            Some(i) => if i < self.stations.len() {
                Some(i)
            } else {
                None
            },
            None => None,
        }
    }
}

impl UIState {
    /// Activating a row: a station view plays the row; a category view
    /// remembers where it was and asks for the stations of the chosen
    /// category, filtered by the active bitrate band.
    pub fn activate_row(&mut self, index: usize) -> (r: RowAction)
        requires
            is_category_view(old(self)@.current_view) ==> index < old(self)@.categories.len(),
        ensures
            !is_category_view(old(self)@.current_view) ==> (r matches RowAction::Play(i) && i
                == index && final(self)@ == old(self)@),
            is_category_view(old(self)@.current_view) ==> {
                let st = category_row_state(old(self)@, index as int);
                &&& r matches RowAction::FetchStations(u) && u@ == st.last_fetched_url
                &&& final(self)@ == st
            },
    {
        let name = match self.current_view {
            ViewType::Tags | ViewType::Languages | ViewType::Countries => {
                self.categories[index].name.clone()
            },
            _ => {
                return RowAction::Play(index);
            },
        };
        let cat = match self.current_view {
            ViewType::Tags => CategoryFilter::Tag(name),
            ViewType::Languages => CategoryFilter::Language(name),
            _ => CategoryFilter::Country(name),
        };
        self.previous_view = Some(self.current_view.clone());
        self.previous_url = self.last_fetched_url.clone();
        self.active_category = cat;
        let url = build_filtered_url(&self.active_category, self.active_bitrate);
        self.last_fetched_url = url.clone();
        RowAction::FetchStations(url)
    }

    /// Opening a custom tag: remembers where the window was and asks for the
    /// stations of the tag, filtered by the active bitrate band.
    pub fn open_custom_tag(&mut self, tag: &str) -> (r: String)
        ensures
            r@ == filtered_url(CategoryModel::Tag(tag@), old(self)@.active_bitrate),
            final(self)@ == custom_tag_state(old(self)@, tag@),
    {
        self.previous_view = Some(self.current_view.clone());
        self.previous_url = self.last_fetched_url.clone();
        self.active_category = CategoryFilter::Tag(String::from_str(tag));
        self.current_view = ViewType::CustomTag(String::from_str(tag));
        let url = build_filtered_url(&self.active_category, self.active_bitrate);
        self.last_fetched_url = url.clone();
        url
    }

    /// Opening the tag, language or country list: shown from the cache when
    /// it was fetched before, fetched otherwise. The category filter is
    /// dropped.
    pub fn show_category_list(&mut self, view: ViewType) -> (r: NavAction)
        requires
            is_category_view(view@),
        ensures
            final(self)@ == (UiModel {
                last_fetched_url: category_list_url(view@),
                active_category: CategoryModel::Any,
                ..old(self)@
            }),
            r@ == match cached_list(old(self)@, view@) {
                Some(items) => NavModel::ShowCategories(view@, items),
                None => NavModel::Fetch {
                    url: category_list_url(view@),
                    stations: false,
                    view: view@,
                },
            },
    {
        let url = match view {
            ViewType::Tags => crate::api::tags_list_url(),
            ViewType::Languages => crate::api::languages_list_url(),
            _ => crate::api::countries_list_url(),
        };
        let cached = match view {
            ViewType::Tags => match &self.cached_tags {
                Some(items) => Some(items_list(items)),
                None => None,
            },
            ViewType::Languages => match &self.cached_languages {
                Some(items) => Some(items_list(items)),
                None => None,
            },
            _ => match &self.cached_countries {
                Some(items) => Some(items_list(items)),
                None => None,
            },
        };
        self.last_fetched_url = url.clone();
        self.active_category = CategoryFilter::Any;
        match cached {
            Some(items) => NavAction::ShowCategories(view, items),
            None => NavAction::Fetch { url, stations: false, view },
        }
    }

    /// Searching stations by name: remembers where the window was and asks
    /// for the matching stations. An empty query does nothing.
    pub fn search(&mut self, query: &str) -> (r: Option<String>)
        ensures
            query@.len() == 0 ==> r is None && final(self)@ == old(self)@,
            query@.len() > 0 ==> (r matches Some(u) && u@ == crate::api::by_name_url(query@)
                && final(self)@ == search_state(old(self)@, query@)),
    {
        if query.is_empty() {
            return None;
        }
        let url = crate::api::search_by_name_url(query);
        self.previous_view = Some(self.current_view.clone());
        self.previous_url = self.last_fetched_url.clone();
        self.current_view = ViewType::Stations;
        self.last_fetched_url = url.clone();
        self.active_category = CategoryFilter::Any;
        Some(url)
    }

    /// Opening the most voted stations; the category filter is dropped.
    pub fn top_voted(&mut self) -> (r: String)
        ensures
            r@ == crate::api::top_voted_url(),
            final(self)@ == (UiModel {
                last_fetched_url: r@,
                active_category: CategoryModel::Any,
                ..old(self)@
            }),
    {
        let url = crate::api::top_voted_list_url();
        self.last_fetched_url = url.clone();
        self.active_category = CategoryFilter::Any;
        url
    }

    /// Choosing a bitrate band: asks for the stations of the active category
    /// in that band.
    pub fn set_bitrate(&mut self, bitrate: BitrateFilterSetting) -> (r: String)
        ensures
            r@ == filtered_url(old(self)@.active_category, bitrate),
            final(self)@ == (UiModel {
                active_bitrate: bitrate,
                last_fetched_url: r@,
                ..old(self)@
            }),
    {
        self.active_bitrate = bitrate;
        let url = build_filtered_url(&self.active_category, self.active_bitrate);
        self.last_fetched_url = url.clone();
        url
    }

    /// The request of the "sync now" button: the stations of the active
    /// category and bitrate band, for the current view.
    pub fn sync_request(&mut self) -> (r: (String, bool, ViewType))
        ensures
            r.0@ == filtered_url(old(self)@.active_category, old(self)@.active_bitrate),
            r.1 == !is_category_view(old(self)@.current_view),
            r.2@ == old(self)@.current_view,
            final(self)@ == (UiModel { last_fetched_url: r.0@, ..old(self)@ }),
    {
        let url = build_filtered_url(&self.active_category, self.active_bitrate);
        self.last_fetched_url = url.clone();
        let view = self.current_view.clone();
        let is_stations = view.lists_stations();
        (url, is_stations, view)
    }

    /// The request of the periodic background update: the last fetch again,
    /// for the current view.
    pub fn refresh_request(&self) -> (r: (String, bool, ViewType))
        ensures
            r.0@ == self@.last_fetched_url,
            r.1 == !is_category_view(self@.current_view),
            r.2@ == self@.current_view,
    {
        let view = self.current_view.clone();
        let is_stations = view.lists_stations();
        (self.last_fetched_url.clone(), is_stations, view)
    }

    /// The step of the background update, taken every
    /// [`AUTO_UPDATE_INTERVAL_SECS`]: the last fetch again, for the current
    /// view, when automatic updates are on; nothing when they are off.
    pub fn background_refresh(&self, auto_update: bool) -> (r: Option<(String, bool, ViewType)>)
        ensures
            !auto_update ==> r is None,
            auto_update ==> (r matches Some(q) && q.0@ == self@.last_fetched_url && q.1
                == !is_category_view(self@.current_view) && q.2@ == self@.current_view),
    {
        if auto_update {
            Some(self.refresh_request())
        } else {
            None
        }
    }

    /// The back button: returns to the view that was left last, once.
    pub fn go_back(&mut self) -> (r: NavAction)
        ensures
            final(self)@ == back_state(old(self)@),
            r@ == back_action(old(self)@),
    {
        let prev = match self.previous_view.take() {
            Some(p) => p,
            None => {
                return NavAction::Nothing;
            },
        };
        let url = self.previous_url.clone();
        match prev {
            ViewType::CustomTag(tag) => {
                self.active_category = CategoryFilter::Tag(tag.clone());
                let cat_url = build_filtered_url(&self.active_category, self.active_bitrate);
                self.current_view = ViewType::CustomTag(tag.clone());
                self.last_fetched_url = cat_url.clone();
                NavAction::Fetch { url: cat_url, stations: true, view: ViewType::CustomTag(tag) }
            },
            ViewType::Stations => {
                let cat_url = build_filtered_url(&self.active_category, self.active_bitrate);
                self.current_view = ViewType::Stations;
                self.last_fetched_url = cat_url.clone();
                NavAction::Fetch { url: cat_url, stations: true, view: ViewType::Stations }
            },
            ViewType::Favorites => {
                let stations = station_list(&self.favorites);
                self.current_view = ViewType::Favorites;
                self.active_category = CategoryFilter::Any;
                self.last_fetched_url = url;
                NavAction::ShowStations(stations)
            },
            ViewType::Recent => {
                let stations = station_list(&self.recent_stations);
                self.current_view = ViewType::Recent;
                self.active_category = CategoryFilter::Any;
                self.last_fetched_url = url;
                NavAction::ShowStations(stations)
            },
            ViewType::Playlists => {
                let stations = station_list(&self.playlists);
                self.current_view = ViewType::Playlists;
                self.active_category = CategoryFilter::Any;
                self.last_fetched_url = url;
                NavAction::ShowStations(stations)
            },
            _ => {
                self.current_view = prev.clone();
                self.last_fetched_url = url.clone();
                let cached = match prev {
                    ViewType::Tags => match &self.cached_tags {
                        Some(items) => Some(items_list(items)),
                        None => None,
                    },
                    ViewType::Languages => match &self.cached_languages {
                        Some(items) => Some(items_list(items)),
                        None => None,
                    },
                    _ => match &self.cached_countries {
                        Some(items) => Some(items_list(items)),
                        None => None,
                    },
                };
                match cached {
                    Some(items) => NavAction::ShowCategories(prev, items),
                    None => NavAction::Fetch { url, stations: false, view: prev },
                }
            },
        }
    }
}


/// One A-Z sort from `o` to `f` in the given direction: the list the view
/// shows becomes its stable sort by lowercased name, nothing else changes,
/// and the window is asked to show the sorted list.
pub open spec fn name_sort_step(o: UiModel, f: UiModel, ascending: bool, r: NavModel) -> bool {
    match o.current_view {
        ViewModel::Tags | ViewModel::Languages | ViewModel::Countries => {
            &&& is_stable_sort(o.categories, f.categories, item_key(), ascending)
            &&& f == (UiModel { categories: f.categories, ..o })
            &&& r == NavModel::ShowCategories(o.current_view, f.categories)
        },
        ViewModel::Playlists => {
            &&& is_stable_sort(o.playlists, f.playlists, station_key(), ascending)
            &&& f == (UiModel { playlists: f.playlists, ..o })
            &&& r == NavModel::ShowStations(f.playlists)
        },
        ViewModel::Favorites => {
            &&& is_stable_sort(o.favorites, f.favorites, station_key(), ascending)
            &&& f == (UiModel { favorites: f.favorites, ..o })
            &&& r == NavModel::ShowStations(f.favorites)
        },
        ViewModel::Recent => {
            &&& is_stable_sort(o.recent_stations, f.recent_stations, station_key(), ascending)
            &&& f == (UiModel { recent_stations: f.recent_stations, ..o })
            &&& r == NavModel::ShowStations(f.recent_stations)
        },
        _ => {
            &&& is_stable_sort(o.stations, f.stations, station_key(), ascending)
            &&& f == (UiModel { stations: f.stations, ..o })
            &&& r == NavModel::ShowStations(f.stations)
        },
    }
}

/// The direction of the A-Z button after `clicks` clicks, starting from `start`.
pub open spec fn sort_direction_after(start: bool, clicks: nat) -> bool
    decreases clicks,
{
    if clicks == 0 {
        start
    } else {
        !sort_direction_after(start, (clicks - 1) as nat)
    }
}

/// The A-Z button alternates: a session starts ascending and each click
/// sorts in the current direction and then flips it, so the `k`-th click of
/// a session sorts A to Z when `k` is odd and Z to A when `k` is even.
pub proof fn lemma_sort_alternates(k: nat)
    requires
        k >= 1,
    ensures
        sort_direction_after(true, (k - 1) as nat) == (k % 2 == 1),
    decreases k,
{
    if k > 1 {
        lemma_sort_alternates((k - 1) as nat);
    }
}

// ---------------------------------------------------------------------------
// Sorting by name
// ---------------------------------------------------------------------------
/// The sort key of a station: its lowercased name.
pub open spec fn station_key() -> spec_fn(StationView) -> Seq<char> {
    |s: StationView| lowercase_of(s.name)
}

/// The sort key of a category: its lowercased name.
pub open spec fn item_key() -> spec_fn(BrowseItemView) -> Seq<char> {
    |b: BrowseItemView| lowercase_of(b.name)
}

/// Stations sorted by lowercased name, A to Z or Z to A; stations of the
/// same lowercased name keep their order.
pub fn sort_stations_by_name(list: &Vec<Station>, ascending: bool) -> (r: Vec<Station>)
    ensures
        is_stable_sort(station_views(list@), station_views(r@), station_key(), ascending),
{
    let ghost input = station_views(list@);
    let mut keys: Vec<Vec<char>> = Vec::new();
    for i in 0..list.len()
        invariant
            input == station_views(list@),
            keys.len() == i,
            forall|j: int| 0 <= j < i ==> (#[trigger] keys@[j])@ == lowercase_of(input[j].name),
    {
        let lower = to_lowercase(list[i].name.as_str());
        keys.push(chars_of(lower.as_str()));
    }
    let perm = stable_order(&keys, ascending);
    let ghost ks = keys@.map_values(|k: Vec<char>| k@);
    let ghost p = perm@.map_values(|x: usize| x as int);
    let mut out: Vec<Station> = Vec::new();
    for i in 0..perm.len()
        invariant
            input == station_views(list@),
            p == perm@.map_values(|x: usize| x as int),
            p.len() == list.len(),
            forall|a: int| 0 <= a < list.len() ==> 0 <= #[trigger] p[a] < list.len(),
            out.len() == i,
            forall|a: int| 0 <= a < i ==> (#[trigger] out@[a])@ == input[p[a]],
    {
        assert(0 <= p[i as int] < list.len());
        out.push(list[perm[i]].clone());
    }
    proof {
        let output = station_views(out@);
        assert forall|j: int| 0 <= j < ks.len() implies ks[j] == (station_key())(input[j]) by {}
        assert forall|i: int| 0 <= i < output.len() implies output[i] == input[#[trigger] p[i]] by {}
        assert(sorted_by_perm(input, output, p, station_key(), ascending));
    }
    out
}

/// Categories sorted by lowercased name, A to Z or Z to A; categories of
/// the same lowercased name keep their order.
pub fn sort_items_by_name(list: &Vec<BrowseItem>, ascending: bool) -> (r: Vec<BrowseItem>)
    ensures
        is_stable_sort(item_views(list@), item_views(r@), item_key(), ascending),
{
    let ghost input = item_views(list@);
    let mut keys: Vec<Vec<char>> = Vec::new();
    for i in 0..list.len()
        invariant
            input == item_views(list@),
            keys.len() == i,
            forall|j: int| 0 <= j < i ==> (#[trigger] keys@[j])@ == lowercase_of(input[j].name),
    {
        let lower = to_lowercase(list[i].name.as_str());
        keys.push(chars_of(lower.as_str()));
    }
    let perm = stable_order(&keys, ascending);
    let ghost ks = keys@.map_values(|k: Vec<char>| k@);
    let ghost p = perm@.map_values(|x: usize| x as int);
    let mut out: Vec<BrowseItem> = Vec::new();
    for i in 0..perm.len()
        invariant
            input == item_views(list@),
            p == perm@.map_values(|x: usize| x as int),
            p.len() == list.len(),
            forall|a: int| 0 <= a < list.len() ==> 0 <= #[trigger] p[a] < list.len(),
            out.len() == i,
            forall|a: int| 0 <= a < i ==> (#[trigger] out@[a])@ == input[p[a]],
    {
        assert(0 <= p[i as int] < list.len());
        out.push(list[perm[i]].clone());
    }
    proof {
        let output = item_views(out@);
        assert forall|j: int| 0 <= j < ks.len() implies ks[j] == (item_key())(input[j]) by {}
        assert forall|i: int| 0 <= i < output.len() implies output[i] == input[#[trigger] p[i]] by {}
        assert(sorted_by_perm(input, output, p, item_key(), ascending));
    }
    out
}

fn count_working(stations: &Vec<Station>) -> (r: usize)
    ensures
        r == working_count(station_views(stations@)),
{
    let ghost all = station_views(stations@);
    let mut n: usize = 0;
    for i in 0..stations.len()
        invariant
            all == station_views(stations@),
            n == working_count(all.subrange(0, i as int)),
            n <= i,
    {
        proof {
            assert(all.subrange(0, i + 1).drop_last() =~= all.subrange(0, i as int));
            assert(all.subrange(0, i + 1).last() == stations@[i as int]@);
        }
        if stations[i].lastcheckok == 1 {
            n = n + 1;
        }
    }
    proof {
        assert(all.subrange(0, stations.len() as int) =~= all);
    }
    n
}

fn category_heading_text(v: &ViewType) -> (r: &'static str)
    ensures
        r@ == category_heading(v@),
{
    match v {
        ViewType::Tags => "Browse by Tag",
        ViewType::Languages => "Browse by Language",
        ViewType::Countries => "Browse by Country",
        _ => "",
    }
}

fn heading_with(prefix: &str, name: &String) -> (r: String)
    ensures
        r@ == prefix@ + name@,
{
    let mut s = String::from_str(prefix);
    s.append(name.as_str());
    s
}

impl UIState {
    /// A category list arrived: it becomes the shown list and the cache of
    /// its view; the fetched stations are dropped. Gives the heading.
    pub fn receive_categories(&mut self, view: ViewType, items: Vec<BrowseItem>, now: String) -> (r: &'static str)
        ensures
            r@ == category_heading(view@),
            final(self)@ == (UiModel {
                current_view: view@,
                categories: item_views(items@),
                stations: seq![],
                current_index: None,
                last_update_timestamp: now@,
                total_elements_fetched: items@.len() as usize,
                cached_tags: if view@ is Tags {
                    Some(item_views(items@))
                } else {
                    old(self)@.cached_tags
                },
                cached_languages: if view@ is Languages {
                    Some(item_views(items@))
                } else {
                    old(self)@.cached_languages
                },
                cached_countries: if view@ is Countries {
                    Some(item_views(items@))
                } else {
                    old(self)@.cached_countries
                },
                ..old(self)@
            }),
    {
        let heading = category_heading_text(&view);
        let n = items.len();
        match view {
            ViewType::Tags => self.cached_tags = Some(items_list(&items)),
            ViewType::Languages => self.cached_languages = Some(items_list(&items)),
            ViewType::Countries => self.cached_countries = Some(items_list(&items)),
            _ => {},
        }
        self.current_view = view;
        self.categories = items;
        self.stations = Vec::new();
        self.current_index = None;
        self.last_update_timestamp = now;
        self.total_elements_fetched = n;
        proof {
            assert(station_views(self.stations@) =~= Seq::<StationView>::empty());
        }
        heading
    }

    /// A station list arrived: it becomes the shown list, in the station
    /// view if a category list was shown; the counts of working stations and
    /// the sync time are kept. Gives the heading, if there is one.
    pub fn receive_stations(&mut self, stations: Vec<Station>, server_sync_time: &str, now: String) -> (r: Option<String>)
        ensures
            final(self)@ == (UiModel {
                last_update_timestamp: shown_sync_time(server_sync_time@, now@),
                current_view: station_view_after(old(self)@.current_view),
                stations: station_views(stations@),
                categories: seq![],
                current_index: None,
                total_elements_fetched: working_count(station_views(stations@)) as usize,
                last_stations_updated_count: working_count(station_views(stations@)) as usize,
                ..old(self)@
            }),
            match r {
                Some(h) => stations_heading(
                    station_view_after(old(self)@.current_view),
                    old(self)@.active_category,
                    old(self)@.current_view,
                ) == Some(h@),
                None => stations_heading(
                    station_view_after(old(self)@.current_view),
                    old(self)@.active_category,
                    old(self)@.current_view,
                ) is None,
            },
    {
        let unknown = crate::settings::str_is(server_sync_time, "Unknown");
        self.last_update_timestamp = if unknown || server_sync_time.is_empty() {
            now
        } else {
            String::from_str(server_sync_time)
        };
        let prev_view = self.current_view.clone();
        if !self.current_view.lists_stations() {
            self.current_view = ViewType::Stations;
        }
        let working = count_working(&stations);
        self.stations = stations;
        self.categories = Vec::new();
        self.current_index = None;
        self.total_elements_fetched = working;
        self.last_stations_updated_count = working;
        proof {
            assert(item_views(self.categories@) =~= Seq::<BrowseItemView>::empty());
        }
        match &self.current_view {
            ViewType::CustomTag(t) => Some(heading_with("Now Browsing Custom Tags > ", t)),
            _ => match &self.active_category {
                CategoryFilter::Tag(t) => Some(heading_with("Now browsing: ", t)),
                CategoryFilter::Language(l) => Some(heading_with("Language: ", l)),
                CategoryFilter::Country(c) => Some(heading_with("Country: ", c)),
                CategoryFilter::Any => match prev_view {
                    ViewType::Favorites => Some(String::from_str("Favorite Stations")),
                    ViewType::Recent => Some(String::from_str("Recently Played")),
                    ViewType::Playlists => Some(String::from_str("Imported Playlist")),
                    _ => None,
                },
            },
        }
    }

    /// The star button: a favourite stops being one, any other station
    /// becomes the last favourite. Tells whether it is a favourite now.
    pub fn toggle_favorite(&mut self, station: &Station) -> (r: bool)
        ensures
            r == !has_uuid(old(self)@.favorites, station@.stationuuid),
            final(self)@ == (UiModel {
                favorites: toggled(old(self)@.favorites, station@),
                ..old(self)@
            }),
    {
        let ghost favs = station_views(self.favorites@);
        let u = chars_of(station.stationuuid.as_str());
        let mut pos: usize = 0;
        proof {
            assert(favs.subrange(0, favs.len() as int) =~= favs);
        }
        while pos < self.favorites.len()
            invariant
                pos <= self.favorites.len(),
                u@ == station@.stationuuid,
                favs == station_views(self.favorites@),
                uuid_position(favs, u@) == pos + uuid_position(
                    favs.subrange(pos as int, favs.len() as int),
                    u@,
                ),
            ensures
                pos <= self.favorites.len(),
                uuid_position(favs, u@) == pos + uuid_position(
                    favs.subrange(pos as int, favs.len() as int),
                    u@,
                ),
                pos < self.favorites.len() ==> favs[pos as int].stationuuid == u@,
            decreases self.favorites.len() - pos,
        {
            proof {
                assert(favs.subrange(pos as int, favs.len() as int)[0] == favs[pos as int]);
                assert(favs.subrange(pos as int, favs.len() as int).drop_first() =~= favs.subrange(
                    pos + 1,
                    favs.len() as int,
                ));
            }
            if chars_eq(&chars_of(self.favorites[pos].stationuuid.as_str()), &u) {
                break;
            }
            pos = pos + 1;
        }
        proof {
            let rest = favs.subrange(pos as int, favs.len() as int);
            if pos < self.favorites.len() {
                assert(rest[0] == favs[pos as int]);
            }
            assert(uuid_position(favs, u@) == pos);
            lemma_uuid_position(favs, u@);
        }
        if pos < self.favorites.len() {
            self.favorites.remove(pos);
            proof {
                assert(station_views(self.favorites@) =~= favs.remove(pos as int));
            }
            false
        } else {
            self.favorites.push(station.clone());
            proof {
                assert(station_views(self.favorites@) =~= favs.push(station@));
            }
            true
        }
    }

    /// Removing a favourite: every favourite with the id `uuid` goes.
    pub fn remove_favorite(&mut self, uuid: &str)
        ensures
            final(self)@ == (UiModel {
                favorites: without_uuid(old(self)@.favorites, uuid@),
                ..old(self)@
            }),
    {
        let ghost all = station_views(self.favorites@);
        let u = chars_of(uuid);
        let mut kept: Vec<Station> = Vec::new();
        let n = self.favorites.len();
        for i in 0..n
            invariant
                n == self.favorites.len(),
                u@ == uuid@,
                all == station_views(self.favorites@),
                station_views(kept@) == without_uuid(all.subrange(0, i as int), uuid@),
        {
            proof {
                assert(all.subrange(0, i + 1).drop_last() =~= all.subrange(0, i as int));
                assert(all.subrange(0, i + 1).last() == self.favorites@[i as int]@);
            }
            if !chars_eq(&chars_of(self.favorites[i].stationuuid.as_str()), &u) {
                let ghost before = station_views(kept@);
                kept.push(self.favorites[i].clone());
                proof {
                    assert(station_views(kept@) =~= before.push(self.favorites@[i as int]@));
                }
            }
        }
        proof {
            assert(all.subrange(0, n as int) =~= all);
        }
        self.favorites = kept;
    }

    /// Removing the playlist entry at `index`; the playlist view stays shown.
    /// Tells whether there was such an entry.
    pub fn remove_playlist_entry(&mut self, index: usize) -> (r: bool)
        ensures
            r == (index < old(self)@.playlists.len()),
            r ==> final(self)@ == (UiModel {
                playlists: old(self)@.playlists.remove(index as int),
                current_view: ViewModel::Playlists,
                ..old(self)@
            }),
            !r ==> final(self)@ == old(self)@,
    {
        if index < self.playlists.len() {
            let ghost before = station_views(self.playlists@);
            self.playlists.remove(index);
            self.current_view = ViewType::Playlists;
            proof {
                assert(station_views(self.playlists@) =~= before.remove(index as int));
            }
            true
        } else {
            false
        }
    }

    /// Importing the stations of a playlist file: they are added after the
    /// imported ones and the playlist view is shown. An empty import changes
    /// nothing. Tells whether anything was imported.
    pub fn import_playlist(&mut self, parsed: Vec<Station>) -> (r: bool)
        ensures
            r == (parsed@.len() > 0),
            r ==> final(self)@ == (UiModel {
                playlists: old(self)@.playlists + station_views(parsed@),
                current_view: ViewModel::Playlists,
                ..old(self)@
            }),
            !r ==> final(self)@ == old(self)@,
    {
        if parsed.len() == 0 {
            return false;
        }
        let ghost before = station_views(self.playlists@);
        let mut parsed = parsed;
        let ghost added = station_views(parsed@);
        self.playlists.append(&mut parsed);
        self.current_view = ViewType::Playlists;
        proof {
            assert(station_views(self.playlists@) =~= before + added);
        }
        true
    }

    /// Forgetting the recently played stations.
    pub fn clear_recents(&mut self)
        ensures
            final(self)@ == (UiModel { recent_stations: seq![], ..old(self)@ }),
    {
        self.recent_stations = Vec::new();
        proof {
            assert(station_views(self.recent_stations@) =~= Seq::<StationView>::empty());
        }
    }
}

impl UIState {
    /// The A-Z button: sorts the shown list by lowercased name, ascending or
    /// descending, and asks the window to show it again.
    pub fn sort_by_name(&mut self, ascending: bool) -> (r: NavAction)
        ensures
            name_sort_step(old(self)@, final(self)@, ascending, r@),
    {
        match self.current_view {
            ViewType::Tags | ViewType::Languages | ViewType::Countries => {
                self.categories = sort_items_by_name(&self.categories, ascending);
                NavAction::ShowCategories(self.current_view.clone(), items_list(&self.categories))
            },
            ViewType::Playlists => {
                self.playlists = sort_stations_by_name(&self.playlists, ascending);
                NavAction::ShowStations(station_list(&self.playlists))
            },
            ViewType::Favorites => {
                self.favorites = sort_stations_by_name(&self.favorites, ascending);
                NavAction::ShowStations(station_list(&self.favorites))
            },
            ViewType::Recent => {
                self.recent_stations = sort_stations_by_name(&self.recent_stations, ascending);
                NavAction::ShowStations(station_list(&self.recent_stations))
            },
            _ => {
                self.stations = sort_stations_by_name(&self.stations, ascending);
                NavAction::ShowStations(station_list(&self.stations))
            },
        }
    }

    /// A click on the A-Z button: sorts the shown list in the current
    /// direction and flips the direction for the next click.
    pub fn sort_click(&mut self) -> (r: NavAction)
        ensures
            name_sort_step(
                old(self)@,
                UiModel { sort_ascending: old(self)@.sort_ascending, ..final(self)@ },
                old(self)@.sort_ascending,
                r@,
            ),
            final(self)@.sort_ascending == !old(self)@.sort_ascending,
    {
        let ascending = self.sort_ascending;
        let r = self.sort_by_name(ascending);
        self.sort_ascending = !ascending;
        r
    }
}

} // verus!
