//! Request URLs of the radio-browser.info API, and the limits the player
//! puts on what comes back.
use vstd::prelude::*;
use vstd::utf8::{decode_utf8, encode_utf8, encode_utf8_decode_utf8};

use crate::station::{item_views, station_views, BrowseItem, BrowseItemView, Station, StationView};
use crate::text::{chars_of, find_char, index_of, trim, trim_chars};

verus! {

/// The category that the station list is filtered by.
#[derive(Debug)]
pub enum CategoryFilter {
    Any,
    Tag(String),
    Language(String),
    Country(String),
}

/// The model of a [`CategoryFilter`].
pub ghost enum CategoryModel {
    Any,
    Tag(Seq<char>),
    Language(Seq<char>),
    Country(Seq<char>),
}

impl View for CategoryFilter {
    type V = CategoryModel;

    open spec fn view(&self) -> CategoryModel {
        match self {
            CategoryFilter::Any => CategoryModel::Any,
            CategoryFilter::Tag(n) => CategoryModel::Tag(n@),
            CategoryFilter::Language(n) => CategoryModel::Language(n@),
            CategoryFilter::Country(n) => CategoryModel::Country(n@),
        }
    }
}

impl Clone for CategoryFilter {
    fn clone(&self) -> (r: Self)
        ensures
            r@ == self@,
    {
        match self {
            CategoryFilter::Any => CategoryFilter::Any,
            CategoryFilter::Tag(n) => CategoryFilter::Tag(n.clone()),
            CategoryFilter::Language(n) => CategoryFilter::Language(n.clone()),
            CategoryFilter::Country(n) => CategoryFilter::Country(n.clone()),
        }
    }
}

/// The bitrate band that the station list is filtered by.
#[derive(Clone, Copy, PartialEq, Eq, Structural, Debug)]
pub enum BitrateFilterSetting {
    Any,
    Low,
    High,
    Flac,
}

// ---------------------------------------------------------------------------
// Percent-encoding
// ---------------------------------------------------------------------------
/// Bytes that percent-encoding leaves as they are: ASCII alphanumerics and `-`, `.`, `_`, `~`.
pub open spec fn is_unreserved(b: u8) -> bool {
    ||| 0x30 <= b <= 0x39
    ||| 0x41 <= b <= 0x5A
    ||| 0x61 <= b <= 0x7A
    ||| b == 0x2D
    ||| b == 0x2E
    ||| b == 0x5F
    ||| b == 0x7E
}

/// An uppercase hexadecimal digit.
pub open spec fn hex_digit(d: int) -> char {
    if d < 10 {
        (0x30 + d) as char
    } else {
        (0x41 - 10 + d) as char
    }
}

/// Percent-encoding of a byte sequence.
pub open spec fn percent_encode(bytes: Seq<u8>) -> Seq<char>
    decreases bytes.len(),
{
    if bytes.len() == 0 {
        seq![]
    } else {
        let b = bytes[0];
        let head = if is_unreserved(b) {
            seq![b as char]
        } else {
            seq!['%', hex_digit((b / 16) as int), hex_digit((b % 16) as int)]
        };
        head + percent_encode(bytes.drop_first())
    }
}

/// `urlencoding::encode`: percent-encodes every byte of the UTF-8 encoding
/// of `s` except ASCII alphanumerics and `-`, `.`, `_`, `~`, writing
/// `%` and two uppercase hexadecimal digits for each other byte.
#[verifier::external_body]
fn url_encode(s: &str) -> (r: String)
    ensures
        r@ == percent_encode(encode_utf8(s@)),
{
    urlencoding::encode(s).into_owned()
}

// ---------------------------------------------------------------------------
// Station search URLs
// ---------------------------------------------------------------------------
/// The station search endpoint.
pub open spec fn search_endpoint() -> Seq<char> {
    "https://de1.api.radio-browser.info/json/stations/search?"@
}

/// The search URL up to the bitrate part: the endpoint, and the category
/// as a URL-encoded query parameter followed by `&`.
pub open spec fn category_endpoint(category: CategoryModel) -> Seq<char> {
    match category {
        CategoryModel::Any => search_endpoint(),
        CategoryModel::Tag(n) => search_endpoint() + "tag="@ + percent_encode(encode_utf8(n))
            + "&"@,
        CategoryModel::Language(n) => search_endpoint() + "language="@ + percent_encode(
            encode_utf8(n),
        ) + "&"@,
        CategoryModel::Country(n) => search_endpoint() + "country="@ + percent_encode(
            encode_utf8(n),
        ) + "&"@,
    }
}

/// The bitrate part of a search URL. A FLAC filter asks for a bitrate of at
/// least 500 within a tag, and for the `flac` tag otherwise.
pub open spec fn bitrate_query(category: CategoryModel, bitrate: BitrateFilterSetting) -> Seq<
    char,
> {
    match bitrate {
        BitrateFilterSetting::Any => "order=bitrate&reverse=true"@,
        BitrateFilterSetting::Low => "bitrateMax=160&order=bitrate&reverse=true"@,
        BitrateFilterSetting::High => "bitrateMin=192&order=bitrate&reverse=true"@,
        BitrateFilterSetting::Flac => if category is Tag {
            "bitrateMin=500&order=bitrate&reverse=true"@
        } else {
            "tag=flac&order=bitrate&reverse=true"@
        },
    }
}

/// The station search URL for a category and a bitrate band.
pub open spec fn filtered_url(category: CategoryModel, bitrate: BitrateFilterSetting) -> Seq<
    char,
> {
    category_endpoint(category) + bitrate_query(category, bitrate)
}

fn append_param(url: &mut String, key: &str, value: &str)
    ensures
        final(url)@ == old(url)@ + key@ + percent_encode(encode_utf8(value@)) + "&"@,
{
    url.append(key);
    let enc = url_encode(value);
    url.append(enc.as_str());
    url.append("&");
}

/// The station search URL for a category and a bitrate band.
pub fn build_filtered_url(category: &CategoryFilter, bitrate: BitrateFilterSetting) -> (r: String)
    ensures
        r@ == filtered_url(category@, bitrate),
{
    let mut url = String::from_str("https://de1.api.radio-browser.info/json/stations/search?");
    match category {
        CategoryFilter::Any => {},
        CategoryFilter::Tag(n) => append_param(&mut url, "tag=", n.as_str()),
        CategoryFilter::Language(n) => append_param(&mut url, "language=", n.as_str()),
        CategoryFilter::Country(n) => append_param(&mut url, "country=", n.as_str()),
    }
    match bitrate {
        BitrateFilterSetting::Any => url.append("order=bitrate&reverse=true"),
        BitrateFilterSetting::Low => url.append("bitrateMax=160&order=bitrate&reverse=true"),
        BitrateFilterSetting::High => url.append("bitrateMin=192&order=bitrate&reverse=true"),
        BitrateFilterSetting::Flac => {
            if let CategoryFilter::Tag(_) = category {
                url.append("bitrateMin=500&order=bitrate&reverse=true")
            } else {
                url.append("tag=flac&order=bitrate&reverse=true")
            }
        },
    }
    url
}

// ---------------------------------------------------------------------------
// Fixed endpoints
// ---------------------------------------------------------------------------
/// Tags, most used first, without broken stations.
pub open spec fn tags_url() -> Seq<char> {
    "https://de1.api.radio-browser.info/json/tags?order=stationcount&reverse=true&hidebroken=true"@
}

/// Languages, most used first.
pub open spec fn languages_url() -> Seq<char> {
    "https://de1.api.radio-browser.info/json/languages?order=stationcount&reverse=true"@
}

/// Countries, most used first.
pub open spec fn countries_url() -> Seq<char> {
    "https://de1.api.radio-browser.info/json/countries?order=stationcount&reverse=true"@
}

/// The most voted stations.
pub open spec fn top_voted_url() -> Seq<char> {
    "https://de1.api.radio-browser.info/json/stations/topvote/150"@
}

/// The stations whose names match a query (the query goes into the path as it is).
pub open spec fn by_name_url(query: Seq<char>) -> Seq<char> {
    "https://de1.api.radio-browser.info/json/stations/byname/"@ + query
}

/// The URL of the tag list.
pub fn tags_list_url() -> (r: String)
    ensures
        r@ == tags_url(),
{
    String::from_str(
        "https://de1.api.radio-browser.info/json/tags?order=stationcount&reverse=true&hidebroken=true",
    )
}

/// The URL of the language list.
pub fn languages_list_url() -> (r: String)
    ensures
        r@ == languages_url(),
{
    String::from_str(
        "https://de1.api.radio-browser.info/json/languages?order=stationcount&reverse=true",
    )
}

/// The URL of the country list.
pub fn countries_list_url() -> (r: String)
    ensures
        r@ == countries_url(),
{
    String::from_str(
        "https://de1.api.radio-browser.info/json/countries?order=stationcount&reverse=true",
    )
}

/// The URL of the most voted stations.
pub fn top_voted_list_url() -> (r: String)
    ensures
        r@ == top_voted_url(),
{
    String::from_str("https://de1.api.radio-browser.info/json/stations/topvote/150")
}

/// The URL of a search by station name.
pub fn search_by_name_url(query: &str) -> (r: String)
    ensures
        r@ == by_name_url(query@),
{
    let mut url = String::from_str("https://de1.api.radio-browser.info/json/stations/byname/");
    url.append(query);
    url
}

// ---------------------------------------------------------------------------
// Request preferences
// ---------------------------------------------------------------------------
/// The separator before a further query parameter: `&` once the URL has a
/// query, `?` before the first.
pub open spec fn query_sep(url: Seq<char>) -> Seq<char> {
    if index_of(url, '?') < url.len() {
        "&"@
    } else {
        "?"@
    }
}

/// `url` with one more query parameter.
pub open spec fn with_param(url: Seq<char>, param: Seq<char>) -> Seq<char> {
    url + query_sep(url) + param
}

/// The URL that a request for stations is sent to: with the preferences for
/// hiding broken stations and for high bitrates added as query parameters.
/// Requests for categories go out as they are.
pub open spec fn request_url(
    url: Seq<char>,
    is_stations: bool,
    hide_broken: bool,
    prefer_high_bitrate: bool,
) -> Seq<char> {
    if !is_stations {
        url
    } else {
        let u1 = if hide_broken {
            with_param(url, "lastcheckok=1"@)
        } else {
            url
        };
        if prefer_high_bitrate {
            with_param(u1, "order=bitrate&reverse=true"@)
        } else {
            u1
        }
    }
}

fn push_param(url: &mut String, param: &str)
    ensures
        final(url)@ == with_param(old(url)@, param@),
{
    let cs = chars_of(url.as_str());
    let q = find_char(&cs, 0, '?');
    proof {
        assert(cs@.subrange(0, cs@.len() as int) =~= cs@);
    }
    if q < cs.len() {
        url.append("&");
    } else {
        url.append("?");
    }
    url.append(param);
}

/// Adds the request preferences to a URL before it is fetched.
pub fn request_url_for(url: String, is_stations: bool, hide_broken: bool, prefer_high_bitrate: bool) -> (r: String)
    ensures
        r@ == request_url(url@, is_stations, hide_broken, prefer_high_bitrate),
{
    let mut url = url;
    if is_stations {
        if hide_broken {
            push_param(&mut url, "lastcheckok=1");
        }
        if prefer_high_bitrate {
            push_param(&mut url, "order=bitrate&reverse=true");
        }
    }
    url
}

// ---------------------------------------------------------------------------
// Limits on fetched lists
// ---------------------------------------------------------------------------
/// At most the first `n` elements of `s`.
pub open spec fn at_most<A>(s: Seq<A>, n: int) -> Seq<A> {
    if s.len() <= n {
        s
    } else {
        s.subrange(0, n)
    }
}

/// Most stations that one fetch shows.
pub const MAX_STATIONS: usize = 250;

/// Most categories that one fetch shows.
pub const MAX_CATEGORIES: usize = 100;

/// The first [`MAX_STATIONS`] stations of a fetched list.
pub fn limit_stations(stations: Vec<Station>) -> (r: Vec<Station>)
    ensures
        station_views(r@) == at_most(station_views(stations@), MAX_STATIONS as int),
{
    let mut stations = stations;
    if stations.len() > MAX_STATIONS {
        let ghost before = station_views(stations@);
        stations.truncate(MAX_STATIONS);
        proof {
            assert(station_views(stations@) =~= before.subrange(0, MAX_STATIONS as int));
        }
    }
    stations
}

/// The categories of `s` whose names are not blank, in order.
pub open spec fn nonblank_items(s: Seq<BrowseItemView>) -> Seq<BrowseItemView>
    decreases s.len(),
{
    if s.len() == 0 {
        seq![]
    } else {
        let rest = nonblank_items(s.drop_last());
        if trim(s.last().name).len() > 0 {
            rest.push(s.last())
        } else {
            rest
        }
    }
}

/// The first [`MAX_CATEGORIES`] categories of a fetched list whose names
/// are not blank.
pub fn visible_categories(items: Vec<BrowseItem>) -> (r: Vec<BrowseItem>)
    ensures
        item_views(r@) == at_most(nonblank_items(item_views(items@)), MAX_CATEGORIES as int),
{
    let mut out: Vec<BrowseItem> = Vec::new();
    let ghost all = item_views(items@);
    proof {
        assert(all.subrange(0, 0) =~= Seq::<BrowseItemView>::empty());
        assert(item_views(out@) =~= Seq::<BrowseItemView>::empty());
    }
    for i in 0..items.len()
        invariant
            all == item_views(items@),
            item_views(out@) == at_most(
                nonblank_items(all.subrange(0, i as int)),
                MAX_CATEGORIES as int,
            ),
    {
        let ghost pre = all.subrange(0, i as int);
        proof {
            assert(all.subrange(0, i + 1).drop_last() =~= pre);
            assert(all.subrange(0, i + 1).last() == items@[i as int]@);
        }
        let name_chars = chars_of(items[i].name.as_str());
        let t = trim_chars(&name_chars);
        if t.len() > 0 && out.len() < MAX_CATEGORIES {
            let ghost before = item_views(out@);
            let item = items[i].clone();
            out.push(item);
            proof {
                assert(item_views(out@) =~= before.push(items@[i as int]@));
            }
        }
        proof {
            let nb = nonblank_items(pre);
            if t.len() > 0 {
                assert(nonblank_items(all.subrange(0, i + 1)) == nb.push(items@[i as int]@));
                if nb.len() >= MAX_CATEGORIES {
                    assert(nb.push(items@[i as int]@).subrange(0, MAX_CATEGORIES as int)
                        =~= at_most(nb, MAX_CATEGORIES as int));
                }
            }
        }
    }
    proof {
        assert(all.subrange(0, items.len() as int) =~= all);
    }
    out
}


/// The directory sync time shown for a station fetch: the time the
/// directory reported, or `Unknown` when it could not be had.
pub fn sync_time_text(reported: Option<String>) -> (r: String)
    ensures
        match reported {
            Some(t) => r@ == t@,
            None => r@ == "Unknown"@,
        },
{
    match reported {
        Some(t) => t,
        None => String::from_str("Unknown"),
    }
}

// ---------------------------------------------------------------------------
// Laws
// ---------------------------------------------------------------------------
/// A character that can stand in a query value without ending it or
/// starting another part of the URL: an unreserved character or `%`.
pub open spec fn is_query_value_char(c: char) -> bool {
    let u = c as u32;
    ||| 0x30 <= u <= 0x39
    ||| 0x41 <= u <= 0x5A
    ||| 0x61 <= u <= 0x7A
    ||| u == 0x2D
    ||| u == 0x2E
    ||| u == 0x5F
    ||| u == 0x7E
    ||| u == 0x25
}

/// A percent-encoded category name holds no `&`, `=`, `?`, `#` or space:
/// whatever the name, it stays one query value of the search URL.
pub proof fn lemma_percent_encode_stays_in_value(bytes: Seq<u8>)
    ensures
        forall|i: int|
            0 <= i < percent_encode(bytes).len() ==> is_query_value_char(
                #[trigger] percent_encode(bytes)[i],
            ),
    decreases bytes.len(),
{
    if bytes.len() > 0 {
        lemma_percent_encode_stays_in_value(bytes.drop_first());
        let b = bytes[0];
        let rest = percent_encode(bytes.drop_first());
        let head = if is_unreserved(b) {
            seq![b as char]
        } else {
            seq!['%', hex_digit((b / 16) as int), hex_digit((b % 16) as int)]
        };
        assert(((b as char) as u32) == b);
        assert forall|d: int| 0 <= d < 16 implies is_query_value_char(#[trigger] hex_digit(d)) by {
            if d < 10 {
                assert(((0x30 + d) as char) as u32 == 0x30 + d);
            } else {
                assert(((0x41 - 10 + d) as char) as u32 == 0x41 - 10 + d);
            }
        }
        assert forall|i: int| 0 <= i < head.len() implies is_query_value_char(#[trigger] head[i]) by {}
        let all = head + rest;
        assert forall|i: int| 0 <= i < all.len() implies is_query_value_char(#[trigger] all[i]) by {
            if i >= head.len() {
                assert(all[i] == rest[i - head.len()]);
            }
        }
    }
}

/// The value of a hexadecimal digit of either case, `-1` for any other character.
pub open spec fn hex_value(c: char) -> int {
    let u = c as u32;
    if 0x30 <= u <= 0x39 {
        u - 0x30
    } else if 0x41 <= u <= 0x46 {
        u - 0x41 + 10
    } else if 0x61 <= u <= 0x66 {
        u - 0x61 + 10
    } else {
        -1
    }
}

/// Percent-decoding: `%` and two hexadecimal digits give the byte they
/// spell; any other character gives its code point as a byte.
pub open spec fn percent_decode(s: Seq<char>) -> Seq<u8>
    decreases s.len(),
{
    if s.len() == 0 {
        seq![]
    } else if s[0] == '%' && s.len() >= 3 && hex_value(s[1]) >= 0 && hex_value(s[2]) >= 0 {
        seq![(hex_value(s[1]) * 16 + hex_value(s[2])) as u8] + percent_decode(
            s.subrange(3, s.len() as int),
        )
    } else {
        seq![(s[0] as u32) as u8] + percent_decode(s.drop_first())
    }
}

/// Percent-decoding gives back the bytes that were percent-encoded.
pub proof fn lemma_percent_decode_encode(bytes: Seq<u8>)
    ensures
        percent_decode(percent_encode(bytes)) == bytes,
    decreases bytes.len(),
{
    if bytes.len() > 0 {
        let b = bytes[0];
        let rest = percent_encode(bytes.drop_first());
        let e = percent_encode(bytes);
        lemma_percent_decode_encode(bytes.drop_first());
        if is_unreserved(b) {
            assert(e == seq![b as char] + rest);
            assert(((b as char) as u32) == b);
            assert(e[0] == b as char);
            assert(e.drop_first() =~= rest);
            assert(percent_decode(e) == seq![((b as char) as u32) as u8] + percent_decode(rest));
            assert(percent_decode(e) =~= bytes);
        } else {
            let hi = (b / 16) as int;
            let lo = (b % 16) as int;
            assert(e == seq!['%', hex_digit(hi), hex_digit(lo)] + rest);
            assert forall|d: int| 0 <= d < 16 implies #[trigger] hex_value(hex_digit(d)) == d by {
                if d < 10 {
                    assert(((0x30 + d) as char) as u32 == 0x30 + d);
                } else {
                    assert(((0x41 - 10 + d) as char) as u32 == 0x41 - 10 + d);
                }
            }
            assert(hex_value(e[1]) == hi);
            assert(hex_value(e[2]) == lo);
            assert(e.subrange(3, e.len() as int) =~= rest);
            assert(hi * 16 + lo == b);
            assert(percent_decode(e) =~= bytes);
        }
    }
}

/// The key of a category in a search URL.
pub open spec fn category_key(category: CategoryModel) -> Seq<char> {
    match category {
        CategoryModel::Any => seq![],
        CategoryModel::Tag(_) => "tag="@,
        CategoryModel::Language(_) => "language="@,
        CategoryModel::Country(_) => "country="@,
    }
}

/// The name of a category.
pub open spec fn category_name(category: CategoryModel) -> Seq<char> {
    match category {
        CategoryModel::Any => seq![],
        CategoryModel::Tag(n) => n,
        CategoryModel::Language(n) => n,
        CategoryModel::Country(n) => n,
    }
}

/// The category name in a search URL is one query value that reads back as
/// the name, whatever characters it holds: the URL is the endpoint, the
/// key, the encoded name, `&` and the bitrate part; the encoded name holds
/// only unreserved characters and `%` (no `&`, `=`, `?`, `#` or space), and
/// percent-decoding it and then decoding UTF-8 gives the name.
pub proof fn lemma_category_value_round_trip(category: CategoryModel, bitrate: BitrateFilterSetting)
    requires
        !(category is Any),
    ensures
        ({
            let v = percent_encode(encode_utf8(category_name(category)));
            &&& filtered_url(category, bitrate) == search_endpoint() + category_key(category) + v
                + "&"@ + bitrate_query(category, bitrate)
            &&& forall|i: int| 0 <= i < v.len() ==> is_query_value_char(#[trigger] v[i])
            &&& decode_utf8(percent_decode(v)) == category_name(category)
        }),
{
    let n = category_name(category);
    lemma_percent_encode_stays_in_value(encode_utf8(n));
    lemma_percent_decode_encode(encode_utf8(n));
    encode_utf8_decode_utf8(n);
}

/// No character of `s` is a `?`.
pub open spec fn has_no_question_mark(s: Seq<char>) -> bool {
    forall|i: int| 0 <= i < s.len() ==> s[i] != '?'
}

proof fn lemma_no_question_mark_concat(a: Seq<char>, b: Seq<char>)
    requires
        has_no_question_mark(a),
        has_no_question_mark(b),
    ensures
        has_no_question_mark(a + b),
{
    assert forall|i: int| 0 <= i < (a + b).len() implies (a + b)[i] != '?' by {
        if i >= a.len() {
            assert((a + b)[i] == b[i - a.len()]);
        }
    }
}

/// A search URL starts its query once: the `?` that ends the endpoint is
/// the only one, whatever the category name.
pub proof fn lemma_single_query_start(category: CategoryModel, bitrate: BitrateFilterSetting)
    ensures
        search_endpoint().len() > 0,
        search_endpoint().last() == '?',
        has_no_question_mark(search_endpoint().drop_last()),
        filtered_url(category, bitrate).subrange(0, search_endpoint().len() as int)
            == search_endpoint(),
        has_no_question_mark(
            filtered_url(category, bitrate).subrange(
                search_endpoint().len() as int,
                filtered_url(category, bitrate).len() as int,
            ),
        ),
{
    reveal_strlit("https://de1.api.radio-browser.info/json/stations/search?");
    reveal_strlit("tag=");
    reveal_strlit("language=");
    reveal_strlit("country=");
    reveal_strlit("&");
    reveal_strlit("order=bitrate&reverse=true");
    reveal_strlit("bitrateMax=160&order=bitrate&reverse=true");
    reveal_strlit("bitrateMin=192&order=bitrate&reverse=true");
    reveal_strlit("bitrateMin=500&order=bitrate&reverse=true");
    reveal_strlit("tag=flac&order=bitrate&reverse=true");
    let ep = search_endpoint();
    assert(has_no_question_mark(ep.drop_last()));
    let v = percent_encode(encode_utf8(category_name(category)));
    lemma_percent_encode_stays_in_value(encode_utf8(category_name(category)));
    assert(has_no_question_mark(v));
    assert(has_no_question_mark(category_key(category)));
    assert(has_no_question_mark("&"@));
    assert(has_no_question_mark(bitrate_query(category, bitrate)));
    let tail = if category is Any {
        bitrate_query(category, bitrate)
    } else {
        lemma_no_question_mark_concat(category_key(category), v);
        lemma_no_question_mark_concat(category_key(category) + v, "&"@);
        lemma_no_question_mark_concat(category_key(category) + v + "&"@, bitrate_query(category, bitrate));
        category_key(category) + v + "&"@ + bitrate_query(category, bitrate)
    };
    let url = filtered_url(category, bitrate);
    assert(url =~= ep + tail);
    assert(url.subrange(0, ep.len() as int) =~= ep);
    assert(url.subrange(ep.len() as int, url.len() as int) =~= tail);
}

/// The station search URL in full: the search endpoint, then the category
/// as `tag=`, `language=` or `country=` and its percent-encoded name
/// followed by `&` (nothing for no category), then the bitrate band:
/// `order=bitrate&reverse=true` alone for any bitrate,
/// `bitrateMax=160&` before it for low, `bitrateMin=192&` for high, and for
/// FLAC `bitrateMin=500&` within a tag but `tag=flac&` for every other
/// category, none included.
pub proof fn lemma_search_url_shape(category: CategoryModel, bitrate: BitrateFilterSetting)
    ensures
        filtered_url(category, bitrate) == "https://de1.api.radio-browser.info/json/stations/search?"@
            + match category {
            CategoryModel::Any => Seq::<char>::empty(),
            CategoryModel::Tag(n) => "tag="@ + percent_encode(encode_utf8(n)) + "&"@,
            CategoryModel::Language(n) => "language="@ + percent_encode(encode_utf8(n)) + "&"@,
            CategoryModel::Country(n) => "country="@ + percent_encode(encode_utf8(n)) + "&"@,
        } + match bitrate {
            BitrateFilterSetting::Any => "order=bitrate&reverse=true"@,
            BitrateFilterSetting::Low => "bitrateMax=160&order=bitrate&reverse=true"@,
            BitrateFilterSetting::High => "bitrateMin=192&order=bitrate&reverse=true"@,
            BitrateFilterSetting::Flac => match category {
                CategoryModel::Tag(_) => "bitrateMin=500&order=bitrate&reverse=true"@,
                _ => "tag=flac&order=bitrate&reverse=true"@,
            },
        },
{
    let head = match category {
        CategoryModel::Any => Seq::<char>::empty(),
        CategoryModel::Tag(n) => "tag="@ + percent_encode(encode_utf8(n)) + "&"@,
        CategoryModel::Language(n) => "language="@ + percent_encode(encode_utf8(n)) + "&"@,
        CategoryModel::Country(n) => "country="@ + percent_encode(encode_utf8(n)) + "&"@,
    };
    assert(category_endpoint(category) =~= search_endpoint() + head);
}

/// No `?` occurs in `url`: it has no query yet.
proof fn lemma_query_sep_of(url: Seq<char>, extra: Seq<char>)
    ensures
        has_no_question_mark(url) ==> query_sep(url) == "?"@,
        !has_no_question_mark(url) ==> query_sep(url) == "&"@,
        !has_no_question_mark(url) ==> !has_no_question_mark(url + extra),
        extra.len() > 0 && extra[0] == '?' ==> !has_no_question_mark(url + extra),
{
    crate::text::lemma_index_of(url, '?');
    if !has_no_question_mark(url) {
        let k = choose|k: int| 0 <= k < url.len() && url[k] == '?';
        assert((url + extra)[k] == '?');
    }
    if extra.len() > 0 && extra[0] == '?' {
        assert((url + extra)[url.len() as int] == '?');
    }
}

/// The request preferences in full: a station request gets
/// `lastcheckok=1` when broken stations are hidden and then
/// `order=bitrate&reverse=true` when high bitrates are preferred; the first
/// parameter added starts the query with `?` when the URL has none, every
/// other one is joined with `&`, so a URL without `?` ends up with at most
/// one. A category request is sent as it is.
pub proof fn lemma_request_url_params(
    url: Seq<char>,
    is_stations: bool,
    hide_broken: bool,
    prefer_high_bitrate: bool,
)
    ensures
        !is_stations ==> request_url(url, is_stations, hide_broken, prefer_high_bitrate) == url,
        is_stations && has_no_question_mark(url) ==> request_url(
            url,
            is_stations,
            hide_broken,
            prefer_high_bitrate,
        ) == url + if hide_broken && prefer_high_bitrate {
            "?lastcheckok=1&order=bitrate&reverse=true"@
        } else if hide_broken {
            "?lastcheckok=1"@
        } else if prefer_high_bitrate {
            "?order=bitrate&reverse=true"@
        } else {
            Seq::<char>::empty()
        },
        is_stations && !has_no_question_mark(url) ==> request_url(
            url,
            is_stations,
            hide_broken,
            prefer_high_bitrate,
        ) == url + (if hide_broken {
            "&lastcheckok=1"@
        } else {
            Seq::<char>::empty()
        }) + (if prefer_high_bitrate {
            "&order=bitrate&reverse=true"@
        } else {
            Seq::<char>::empty()
        }),
        is_stations && has_no_question_mark(url) && (hide_broken || prefer_high_bitrate) ==> {
            let r = request_url(url, is_stations, hide_broken, prefer_high_bitrate);
            &&& r[url.len() as int] == '?'
            &&& has_no_question_mark(r.subrange(url.len() + 1int, r.len() as int))
        },
{
    reveal_strlit("?");
    reveal_strlit("&");
    reveal_strlit("lastcheckok=1");
    reveal_strlit("order=bitrate&reverse=true");
    reveal_strlit("?lastcheckok=1&order=bitrate&reverse=true");
    reveal_strlit("?lastcheckok=1");
    reveal_strlit("lastcheckok=1&order=bitrate&reverse=true");
    reveal_strlit("?order=bitrate&reverse=true");
    reveal_strlit("&lastcheckok=1");
    reveal_strlit("&order=bitrate&reverse=true");
    let lc = "lastcheckok=1"@;
    let ob = "order=bitrate&reverse=true"@;
    lemma_query_sep_of(url, "?"@ + lc);
    lemma_query_sep_of(url, "&"@ + lc);
    if is_stations {
        if has_no_question_mark(url) {
            let u1 = url + "?"@ + lc;
            assert(u1 =~= url + ("?"@ + lc));
            lemma_query_sep_of(u1, seq![]);
            if hide_broken && prefer_high_bitrate {
                assert(u1 + "&"@ + ob =~= url + "?lastcheckok=1&order=bitrate&reverse=true"@);
                let r = u1 + "&"@ + ob;
                let tail = r.subrange(url.len() + 1int, r.len() as int);
                assert(tail =~= "lastcheckok=1&order=bitrate&reverse=true"@);
            } else if hide_broken {
                assert(u1 =~= url + "?lastcheckok=1"@);
                let tail = u1.subrange(url.len() + 1int, u1.len() as int);
                assert(tail =~= lc);
            } else if prefer_high_bitrate {
                let r = url + "?"@ + ob;
                assert(r =~= url + "?order=bitrate&reverse=true"@);
                let tail = r.subrange(url.len() + 1int, r.len() as int);
                assert(tail =~= ob);
            } else {
                assert(url + Seq::<char>::empty() =~= url);
            }
        } else {
            let u1 = if hide_broken {
                url + "&"@ + lc
            } else {
                url
            };
            lemma_query_sep_of(url, "&"@ + lc);
            if hide_broken {
                assert(u1 =~= url + ("&"@ + lc));
            }
            lemma_query_sep_of(u1, seq![]);
            assert(url + (if hide_broken {
                "&lastcheckok=1"@
            } else {
                Seq::<char>::empty()
            }) =~= u1);
            if prefer_high_bitrate {
                assert(u1 + "&"@ + ob =~= u1 + "&order=bitrate&reverse=true"@);
            } else {
                assert(u1 + Seq::<char>::empty() =~= u1);
            }
        }
    }
}

proof fn lemma_nonblank_items(s: Seq<BrowseItemView>)
    ensures
        forall|i: int|
            0 <= i < nonblank_items(s).len() ==> trim((#[trigger] nonblank_items(s)[i]).name).len()
                > 0,
        nonblank_items(s).len() <= s.len(),
    decreases s.len(),
{
    if s.len() > 0 {
        lemma_nonblank_items(s.drop_last());
    }
}

/// A fetched category list shows at most [`MAX_CATEGORIES`] categories,
/// none of them with a blank name; a fetched station list shows at most
/// [`MAX_STATIONS`] stations, the first ones of what came.
pub proof fn lemma_fetch_limits(items: Seq<BrowseItemView>, stations: Seq<StationView>)
    ensures
        at_most(nonblank_items(items), MAX_CATEGORIES as int).len() <= MAX_CATEGORIES,
        forall|i: int|
            0 <= i < at_most(nonblank_items(items), MAX_CATEGORIES as int).len() ==> trim(
                (#[trigger] at_most(nonblank_items(items), MAX_CATEGORIES as int)[i]).name,
            ).len() > 0,
        at_most(stations, MAX_STATIONS as int).len() <= MAX_STATIONS,
        forall|i: int|
            0 <= i < at_most(stations, MAX_STATIONS as int).len() ==> #[trigger] at_most(
                stations,
                MAX_STATIONS as int,
            )[i] == stations[i],
{
    lemma_nonblank_items(items);
    let nb = nonblank_items(items);
    assert forall|i: int| 0 <= i < at_most(nb, MAX_CATEGORIES as int).len() implies trim(
        (#[trigger] at_most(nb, MAX_CATEGORIES as int)[i]).name,
    ).len() > 0 by {
        assert(at_most(nb, MAX_CATEGORIES as int)[i] == nb[i]);
    }
}

} // verus!
