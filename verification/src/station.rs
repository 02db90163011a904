//! Radio stations and browse categories, as the radio-browser.info API and
//! the playlist importers deliver them.
use vstd::prelude::*;

verus! {

/// A radio station.
#[derive(Debug)]
pub struct Station {
    pub stationuuid: String,
    pub name: String,
    pub url_resolved: String,
    pub tags: String,
    pub country: String,
    pub countrycode: String,
    pub lastcheckok: i32,
    pub bitrate: Option<u32>,
}

/// The mathematical model of a [`Station`]: its texts as character sequences.
pub ghost struct StationView {
    pub stationuuid: Seq<char>,
    pub name: Seq<char>,
    pub url_resolved: Seq<char>,
    pub tags: Seq<char>,
    pub country: Seq<char>,
    pub countrycode: Seq<char>,
    pub lastcheckok: i32,
    pub bitrate: Option<u32>,
}

impl View for Station {
    type V = StationView;

    open spec fn view(&self) -> StationView {
        StationView {
            stationuuid: self.stationuuid@,
            name: self.name@,
            url_resolved: self.url_resolved@,
            tags: self.tags@,
            country: self.country@,
            countrycode: self.countrycode@,
            lastcheckok: self.lastcheckok,
            bitrate: self.bitrate,
        }
    }
}

impl Clone for Station {
    fn clone(&self) -> (r: Self)
        ensures
            r@ == self@,
    {
        Station {
            stationuuid: self.stationuuid.clone(),
            name: self.name.clone(),
            url_resolved: self.url_resolved.clone(),
            tags: self.tags.clone(),
            country: self.country.clone(),
            countrycode: self.countrycode.clone(),
            lastcheckok: self.lastcheckok,
            bitrate: self.bitrate,
        }
    }
}

/// The models of a sequence of stations.
pub open spec fn station_views(s: Seq<Station>) -> Seq<StationView> {
    s.map_values(|x: Station| x@)
}

/// A category (tag, language or country) with its number of stations.
#[derive(Debug)]
pub struct BrowseItem {
    pub name: String,
    pub stationcount: u32,
}

/// The model of a [`BrowseItem`].
pub ghost struct BrowseItemView {
    pub name: Seq<char>,
    pub stationcount: u32,
}

impl View for BrowseItem {
    type V = BrowseItemView;

    open spec fn view(&self) -> BrowseItemView {
        BrowseItemView { name: self.name@, stationcount: self.stationcount }
    }
}

impl Clone for BrowseItem {
    fn clone(&self) -> (r: Self)
        ensures
            r@ == self@,
    {
        BrowseItem { name: self.name.clone(), stationcount: self.stationcount }
    }
}

/// The models of a sequence of categories.
pub open spec fn item_views(s: Seq<BrowseItem>) -> Seq<BrowseItemView> {
    s.map_values(|x: BrowseItem| x@)
}

} // verus!
