//! Importers for M3U and PLS playlist files.
use vstd::prelude::*;

use crate::station::{station_views, Station, StationView};
use crate::text::{
    char_index_at_byte, char_pos_of_byte, chars_eq, chars_of, copy_range, find_char, has_prefix,
    index_of, lemma_index_of, lines, split_lines, starts_with, string_from_chars, to_uppercase,
    trim, trim_chars, uppercase_of,
};

verus! {

/// The station that an imported playlist entry becomes.
pub open spec fn imported_station(name: Seq<char>, url: Seq<char>) -> StationView {
    StationView {
        stationuuid: seq![],
        name: name,
        url_resolved: url,
        tags: "imported"@,
        country: seq![],
        countrycode: seq![],
        lastcheckok: 1,
        bitrate: None,
    }
}

/// What an M3U parse has gathered so far: the stations, and the title that
/// the last `#EXTINF` line announced for the next entry.
pub ghost struct M3uState {
    pub stations: Seq<StationView>,
    pub next_name: Seq<char>,
}

/// One line of an M3U file.
pub open spec fn m3u_step(st: M3uState, line: Seq<char>) -> M3uState {
    let t = trim(line);
    if has_prefix(t, "#EXTINF:"@) {
        let c = index_of(t, ',');
        if c < t.len() {
            M3uState { stations: st.stations, next_name: trim(t.subrange(c + 1, t.len() as int)) }
        } else {
            st
        }
    } else if t.len() > 0 && t[0] != '#' {
        let name = if st.next_name.len() == 0 {
            t
        } else {
            st.next_name
        };
        M3uState { stations: st.stations.push(imported_station(name, t)), next_name: seq![] }
    } else {
        st
    }
}

/// The lines of an M3U file, one after the other.
pub open spec fn m3u_fold(ls: Seq<Seq<char>>, st: M3uState) -> M3uState
    decreases ls.len(),
{
    if ls.len() == 0 {
        st
    } else {
        m3u_fold(ls.drop_first(), m3u_step(st, ls[0]))
    }
}

/// The stations of an M3U file: one per line that is neither blank nor a
/// comment, named by the `#EXTINF` title before it or else by its URL.
pub open spec fn m3u_stations(content: Seq<char>) -> Seq<StationView> {
    m3u_fold(lines(content), M3uState { stations: seq![], next_name: seq![] }).stations
}

fn imported(name: String, url: String) -> (r: Station)
    ensures
        r@ == imported_station(name@, url@),
{
    Station {
        stationuuid: String::new(),
        name: name,
        url_resolved: url,
        tags: String::from_str("imported"),
        country: String::new(),
        countrycode: String::new(),
        lastcheckok: 1,
        bitrate: None,
    }
}

/// Parses an M3U playlist.
pub fn parse_m3u(content: &str) -> (r: Vec<Station>)
    ensures
        station_views(r@) == m3u_stations(content@),
{
    let cs = chars_of(content);
    let ls = split_lines(&cs);
    let ghost lv = ls@.map_values(|v: Vec<char>| v@);
    let ghost init = M3uState { stations: seq![], next_name: seq![] };
    let mut stations: Vec<Station> = Vec::new();
    let mut next_name: Vec<char> = Vec::new();
    let n = ls.len();
    proof {
        assert(lv.subrange(0, n as int) =~= lv);
        assert(station_views(stations@) =~= Seq::<StationView>::empty());
    }
    for i in 0..n
        invariant
            n == ls.len(),
            lv == ls@.map_values(|v: Vec<char>| v@),
            lv == lines(content@),
            m3u_fold(lv, init) == m3u_fold(
                lv.subrange(i as int, n as int),
                M3uState { stations: station_views(stations@), next_name: next_name@ },
            ),
    {
        let ghost st = M3uState { stations: station_views(stations@), next_name: next_name@ };
        let ghost line = lv[i as int];
        proof {
            assert(lv.subrange(i as int, n as int).drop_first() =~= lv.subrange(i + 1, n as int));
            assert(ls@[i as int]@ == line);
        }
        let t = trim_chars(&ls[i]);
        if starts_with(&t, "#EXTINF:") {
            let c = find_char(&t, 0, ',');
            proof {
                assert(t@.subrange(0, t@.len() as int) =~= t@);
                lemma_index_of(t@, ',');
            }
            if c < t.len() {
                let rest = copy_range(&t, c + 1, t.len());
                next_name = trim_chars(&rest);
            }
        } else if t.len() > 0 && t[0] != '#' {
            let name = if next_name.len() == 0 {
                string_from_chars(&t)
            } else {
                string_from_chars(&next_name)
            };
            let url = string_from_chars(&t);
            let s = imported(name, url);
            let ghost before = station_views(stations@);
            stations.push(s);
            proof {
                assert(station_views(stations@) =~= before.push(s@));
            }
            next_name = Vec::new();
        }
        proof {
            assert(M3uState { stations: station_views(stations@), next_name: next_name@ }
                == m3u_step(st, line));
        }
    }
    proof {
        assert(lv.subrange(n as int, n as int) =~= Seq::<Seq<char>>::empty());
    }
    stations
}

// ---------------------------------------------------------------------------
// PLS
// ---------------------------------------------------------------------------
/// `str::trim_start_matches('\u{FEFF}')`: `s` without its leading byte order marks.
pub open spec fn strip_bom(s: Seq<char>) -> Seq<char>
    decreases s.len(),
{
    if s.len() > 0 && s[0] == '\u{FEFF}' {
        strip_bom(s.drop_first())
    } else {
        s
    }
}

/// `str::replace("\r\n", "\n")`.
pub open spec fn crlf_to_lf(s: Seq<char>) -> Seq<char>
    decreases s.len(),
{
    if s.len() == 0 {
        seq![]
    } else if s.len() >= 2 && s[0] == '\r' && s[1] == '\n' {
        seq!['\n'] + crlf_to_lf(s.subrange(2, s.len() as int))
    } else {
        seq![s[0]] + crlf_to_lf(s.drop_first())
    }
}

/// The lines of a PLS file, after its byte order marks and CR LF endings are dealt with.
pub open spec fn pls_lines(content: Seq<char>) -> Seq<Seq<char>> {
    lines(crlf_to_lf(strip_bom(content)))
}

/// A line of a PLS file that carries an entry: not blank, no section
/// header, no comment.
pub open spec fn pls_entry_line(t: Seq<char>) -> bool {
    t.len() > 0 && t[0] != '[' && t[0] != '#'
}

/// The key of a `KEY<number>=value` line, `FILE` or `TITLE`, is matched on
/// the uppercased line.
pub open spec fn pls_keyed(t: Seq<char>, key: Seq<char>) -> bool {
    pls_entry_line(t) && index_of(t, '=') < t.len() && has_prefix(uppercase_of(t), key)
}

/// The number part of a keyed line starts on a character boundary, at or
/// before the `=`.
pub open spec fn pls_number_in_bounds(t: Seq<char>, key_len: int) -> bool {
    0 <= char_pos_of_byte(t, key_len) <= index_of(t, '=')
}

/// The number part of a keyed line: from byte `key_len` up to the `=`.
/// Where the letters of the key are those of `FILE` or `TITLE` in either
/// case (or characters whose uppercase form gives them), the key always ends
/// on a character boundary before the `=`; a key that ended elsewhere would
/// give an empty number.
pub open spec fn pls_number(t: Seq<char>, key_len: int) -> Seq<char> {
    if pls_number_in_bounds(t, key_len) {
        trim(t.subrange(char_pos_of_byte(t, key_len), index_of(t, '=')))
    } else {
        seq![]
    }
}

/// The value part of a keyed line: after the `=`.
pub open spec fn pls_value(t: Seq<char>) -> Seq<char> {
    trim(t.subrange(index_of(t, '=') + 1, t.len() as int))
}

/// What a PLS parse has gathered so far: `(number, url)` of the `File`
/// entries and `(number, title)` of the `Title` entries, in file order.
pub ghost struct PlsState {
    pub files: Seq<(Seq<char>, Seq<char>)>,
    pub titles: Seq<(Seq<char>, Seq<char>)>,
}

/// One line of a PLS file.
pub open spec fn pls_step(st: PlsState, line: Seq<char>) -> PlsState {
    let t = trim(line);
    if pls_keyed(t, "FILE"@) {
        let url = pls_value(t);
        if url.len() > 0 {
            PlsState { files: st.files.push((pls_number(t, 4), url)), titles: st.titles }
        } else {
            st
        }
    } else if pls_keyed(t, "TITLE"@) {
        let name = pls_value(t);
        if name.len() > 0 {
            PlsState { files: st.files, titles: st.titles.push((pls_number(t, 5), name)) }
        } else {
            st
        }
    } else {
        st
    }
}

/// The lines of a PLS file, one after the other.
pub open spec fn pls_fold(ls: Seq<Seq<char>>, st: PlsState) -> PlsState
    decreases ls.len(),
{
    if ls.len() == 0 {
        st
    } else {
        pls_fold(ls.drop_first(), pls_step(st, ls[0]))
    }
}

/// The title given last to an entry number: a later `TitleN` replaces an
/// earlier one.
pub open spec fn title_for(titles: Seq<(Seq<char>, Seq<char>)>, num: Seq<char>) -> Option<
    Seq<char>,
>
    decreases titles.len(),
{
    if titles.len() == 0 {
        None
    } else if titles.last().0 == num {
        Some(titles.last().1)
    } else {
        title_for(titles.drop_last(), num)
    }
}

/// The station of a `File` entry: named by its title, else by its URL.
pub open spec fn pls_station(titles: Seq<(Seq<char>, Seq<char>)>, f: (Seq<char>, Seq<char>)) -> StationView {
    match title_for(titles, f.0) {
        Some(name) => imported_station(name, f.1),
        None => imported_station(f.1, f.1),
    }
}

/// The stations of a PLS file: one per non-empty `FileN` entry, in file order.
pub open spec fn pls_stations(content: Seq<char>) -> Seq<StationView> {
    let st = pls_fold(pls_lines(content), PlsState { files: seq![], titles: seq![] });
    st.files.map_values(|f: (Seq<char>, Seq<char>)| pls_station(st.titles, f))
}

spec fn pair_views(v: Seq<(Vec<char>, Vec<char>)>) -> Seq<(Seq<char>, Seq<char>)> {
    v.map_values(|p: (Vec<char>, Vec<char>)| (p.0@, p.1@))
}

fn drop_byte_order_marks(s: &Vec<char>) -> (r: Vec<char>)
    ensures
        r@ == strip_bom(s@),
{
    let n = s.len();
    let mut lo: usize = 0;
    proof {
        assert(s@.subrange(0, n as int) =~= s@);
    }
    loop
        invariant
            lo <= n == s.len(),
            strip_bom(s@) == strip_bom(s@.subrange(lo as int, n as int)),
        ensures
            lo <= n,
            strip_bom(s@) == strip_bom(s@.subrange(lo as int, n as int)),
            lo < n ==> s@[lo as int] != '\u{FEFF}',
        decreases n - lo,
    {
        if lo >= n || s[lo] != '\u{FEFF}' {
            break;
        }
        proof {
            assert(s@.subrange(lo as int, n as int).drop_first() =~= s@.subrange(
                lo + 1,
                n as int,
            ));
        }
        lo = lo + 1;
    }
    proof {
        let t = s@.subrange(lo as int, n as int);
        if t.len() > 0 {
            assert(t[0] == s@[lo as int]);
        }
    }
    copy_range(s, lo, n)
}

fn crlf_into_lf(s: &Vec<char>) -> (r: Vec<char>)
    ensures
        r@ == crlf_to_lf(s@),
{
    let n = s.len();
    let mut out: Vec<char> = Vec::new();
    let mut i: usize = 0;
    proof {
        assert(s@.subrange(0, n as int) =~= s@);
    }
    while i < n
        invariant
            i <= n == s.len(),
            crlf_to_lf(s@) == out@ + crlf_to_lf(s@.subrange(i as int, n as int)),
        decreases n - i,
    {
        let ghost rest = s@.subrange(i as int, n as int);
        if i + 1 < n && s[i] == '\r' && s[i + 1] == '\n' {
            proof {
                assert(rest.subrange(2, rest.len() as int) =~= s@.subrange(i + 2, n as int));
                assert(out@.push('\n') + crlf_to_lf(s@.subrange(i + 2, n as int)) =~= out@ + (
                seq!['\n'] + crlf_to_lf(s@.subrange(i + 2, n as int))));
            }
            out.push('\n');
            i = i + 2;
        } else {
            proof {
                assert(rest.drop_first() =~= s@.subrange(i + 1, n as int));
                assert(out@.push(s@[i as int]) + crlf_to_lf(s@.subrange(i + 1, n as int))
                    =~= out@ + (seq![s@[i as int]] + crlf_to_lf(s@.subrange(i + 1, n as int))));
            }
            out.push(s[i]);
            i = i + 1;
        }
    }
    proof {
        assert(s@.subrange(n as int, n as int) =~= Seq::<char>::empty());
        assert(out@ + Seq::<char>::empty() =~= out@);
    }
    out
}

/// The number and value of a keyed line.
fn split_keyed(t: &Vec<char>, key_len: usize) -> (r: (Vec<char>, Vec<char>))
    requires
        index_of(t@, '=') < t@.len(),
    ensures
        r.0@ == pls_number(t@, key_len as int),
        r.1@ == pls_value(t@),
{
    let e = find_char(t, 0, '=');
    proof {
        assert(t@.subrange(0, t@.len() as int) =~= t@);
        lemma_index_of(t@, '=');
    }
    let value = trim_chars(&copy_range(t, e + 1, t.len()));
    let num = match char_index_at_byte(t, key_len) {
        Some(k) => {
            if k <= e {
                trim_chars(&copy_range(t, k, e))
            } else {
                Vec::new()
            }
        },
        None => Vec::new(),
    };
    (num, value)
}

/// Scans the lines of a PLS file into its `File` and `Title` entries.
fn scan_pls(content: &str) -> (r: (Vec<(Vec<char>, Vec<char>)>, Vec<(Vec<char>, Vec<char>)>))
    ensures
        pls_fold(pls_lines(content@), PlsState { files: seq![], titles: seq![] })
            == (PlsState { files: pair_views(r.0@), titles: pair_views(r.1@) }),
{
    let cs = chars_of(content);
    let cs = drop_byte_order_marks(&cs);
    let cs = crlf_into_lf(&cs);
    let ls = split_lines(&cs);
    let ghost lv = ls@.map_values(|v: Vec<char>| v@);
    let ghost init = PlsState { files: seq![], titles: seq![] };
    let mut files: Vec<(Vec<char>, Vec<char>)> = Vec::new();
    let mut titles: Vec<(Vec<char>, Vec<char>)> = Vec::new();
    let n = ls.len();
    proof {
        assert(lv.subrange(0, n as int) =~= lv);
        assert(pair_views(files@) =~= Seq::<(Seq<char>, Seq<char>)>::empty());
        assert(pair_views(titles@) =~= Seq::<(Seq<char>, Seq<char>)>::empty());
    }
    for i in 0..n
        invariant
            n == ls.len(),
            lv == ls@.map_values(|v: Vec<char>| v@),
            lv == pls_lines(content@),
            pls_fold(lv, init) == pls_fold(
                lv.subrange(i as int, n as int),
                PlsState { files: pair_views(files@), titles: pair_views(titles@) },
            ),
    {
        let ghost st = PlsState { files: pair_views(files@), titles: pair_views(titles@) };
        let ghost line = lv[i as int];
        proof {
            assert(lv.subrange(i as int, n as int).drop_first() =~= lv.subrange(i + 1, n as int));
            assert(ls@[i as int]@ == line);
        }
        let t = trim_chars(&ls[i]);
        if t.len() > 0 && t[0] != '[' && t[0] != '#' {
            let e = find_char(&t, 0, '=');
            proof {
                assert(t@.subrange(0, t@.len() as int) =~= t@);
            }
            if e < t.len() {
                let ts = string_from_chars(&t);
                let up_s = to_uppercase(ts.as_str());
                let up = chars_of(up_s.as_str());
                if starts_with(&up, "FILE") {
                    let p = split_keyed(&t, 4);
                    if p.1.len() > 0 {
                        let ghost before = pair_views(files@);
                        let ghost pv = (p.0@, p.1@);
                        files.push(p);
                        proof {
                            assert(pair_views(files@) =~= before.push(pv));
                        }
                    }
                } else if starts_with(&up, "TITLE") {
                    let p = split_keyed(&t, 5);
                    if p.1.len() > 0 {
                        let ghost before = pair_views(titles@);
                        let ghost pv = (p.0@, p.1@);
                        titles.push(p);
                        proof {
                            assert(pair_views(titles@) =~= before.push(pv));
                        }
                    }
                }
            }
        }
        proof {
            assert(PlsState { files: pair_views(files@), titles: pair_views(titles@) }
                == pls_step(st, line));
        }
    }
    proof {
        assert(lv.subrange(n as int, n as int) =~= Seq::<Seq<char>>::empty());
    }
    (files, titles)
}

fn lookup_title(titles: &Vec<(Vec<char>, Vec<char>)>, num: &Vec<char>) -> (r: Option<String>)
    ensures
        match r {
            Some(s) => title_for(pair_views(titles@), num@) == Some(s@),
            None => title_for(pair_views(titles@), num@) is None,
        },
{
    let mut k = titles.len();
    proof {
        assert(pair_views(titles@).subrange(0, k as int) =~= pair_views(titles@));
    }
    while k > 0
        invariant
            k <= titles.len(),
            title_for(pair_views(titles@), num@) == title_for(
                pair_views(titles@).subrange(0, k as int),
                num@,
            ),
        decreases k,
    {
        let ghost pre = pair_views(titles@).subrange(0, k as int);
        proof {
            assert(pre.drop_last() =~= pair_views(titles@).subrange(0, k - 1));
            assert(pre.last() == (titles@[k - 1].0@, titles@[k - 1].1@));
        }
        if chars_eq(&titles[k - 1].0, num) {
            return Some(string_from_chars(&titles[k - 1].1));
        }
        k = k - 1;
    }
    None
}

/// Parses a PLS playlist.
pub fn parse_pls(content: &str) -> (r: Vec<Station>)
    ensures
        station_views(r@) == pls_stations(content@),
{
    let (files, titles) = scan_pls(content);
    let ghost st = PlsState { files: pair_views(files@), titles: pair_views(titles@) };
    let mut stations: Vec<Station> = Vec::new();
    for i in 0..files.len()
        invariant
            st == (PlsState { files: pair_views(files@), titles: pair_views(titles@) }),
            station_views(stations@) =~= st.files.subrange(0, i as int).map_values(
                |f: (Seq<char>, Seq<char>)| pls_station(st.titles, f),
            ),
    {
        let url = string_from_chars(&files[i].1);
        let name = match lookup_title(&titles, &files[i].0) {
            Some(t) => t,
            None => string_from_chars(&files[i].1),
        };
        let s = imported(name, url);
        let ghost before = station_views(stations@);
        stations.push(s);
        proof {
            assert(station_views(stations@) =~= before.push(s@));
            assert(st.files[i as int] == (files@[i as int].0@, files@[i as int].1@));
            assert(s@ == pls_station(st.titles, st.files[i as int]));
        }
    }
    proof {
        assert(st.files.subrange(0, files.len() as int) =~= st.files);
    }
    stations
}

// ---------------------------------------------------------------------------
// Choosing the format
// ---------------------------------------------------------------------------
/// A file extension that names an M3U playlist: `m3u` or `M3U`.
pub open spec fn is_m3u_extension(ext: Option<Seq<char>>) -> bool {
    ext matches Some(e) && (e == "m3u"@ || e == "M3U"@)
}

/// The extension of a file name as characters.
pub open spec fn extension_view(ext: Option<&str>) -> Option<Seq<char>> {
    match ext {
        Some(e) => Some(e@),
        None => None,
    }
}

/// Parses an imported playlist file: as M3U when its extension is `m3u` or
/// `M3U`, as PLS for any other extension or none.
pub fn parse_playlist(extension: Option<&str>, content: &str) -> (r: Vec<Station>)
    ensures
        station_views(r@) == if is_m3u_extension(extension_view(extension)) {
            m3u_stations(content@)
        } else {
            pls_stations(content@)
        },
{
    let is_m3u = match extension {
        Some(e) => crate::settings::str_is(e, "m3u") || crate::settings::str_is(e, "M3U"),
        None => false,
    };
    if is_m3u {
        parse_m3u(content)
    } else {
        parse_pls(content)
    }
}

// ---------------------------------------------------------------------------
// Laws
// ---------------------------------------------------------------------------
/// What every imported station is: a non-blank URL and name, the tag
/// `imported`, marked as working, no id, country or bitrate.
pub open spec fn well_imported(s: StationView) -> bool {
    &&& s.url_resolved.len() > 0
    &&& s.name.len() > 0
    &&& s.tags == "imported"@
    &&& s.lastcheckok == 1
    &&& s.bitrate is None
    &&& s.stationuuid.len() == 0
    &&& s.country.len() == 0
    &&& s.countrycode.len() == 0
}

/// A trimmed M3U line that names a stream: not blank, no comment or directive.
pub open spec fn is_m3u_entry(line: Seq<char>) -> bool {
    let t = trim(line);
    t.len() > 0 && t[0] != '#'
}

/// The number of lines of `ls` that name a stream.
pub open spec fn m3u_entry_count(ls: Seq<Seq<char>>) -> nat
    decreases ls.len(),
{
    if ls.len() == 0 {
        0
    } else {
        m3u_entry_count(ls.drop_first()) + if is_m3u_entry(ls[0]) {
            1nat
        } else {
            0nat
        }
    }
}

proof fn lemma_m3u_fold(ls: Seq<Seq<char>>, st: M3uState)
    requires
        forall|i: int| 0 <= i < st.stations.len() ==> well_imported(#[trigger] st.stations[i]),
    ensures
        forall|i: int|
            0 <= i < m3u_fold(ls, st).stations.len() ==> well_imported(
                #[trigger] m3u_fold(ls, st).stations[i],
            ),
        m3u_fold(ls, st).stations.len() == st.stations.len() + m3u_entry_count(ls),
    decreases ls.len(),
{
    reveal_strlit("#EXTINF:");
    if ls.len() > 0 {
        let t = trim(ls[0]);
        let next = m3u_step(st, ls[0]);
        if has_prefix(t, "#EXTINF:"@) {
            assert(t[0] == "#EXTINF:"@[0]);
        }
        assert forall|i: int| 0 <= i < next.stations.len() implies well_imported(
            #[trigger] next.stations[i],
        ) by {
            if i < st.stations.len() {
                assert(next.stations[i] == st.stations[i]);
            }
        }
        lemma_m3u_fold(ls.drop_first(), next);
    }
}

/// An M3U file gives one station per line that names a stream, and every
/// station it gives is well imported.
pub proof fn lemma_m3u_stations(content: Seq<char>)
    ensures
        m3u_stations(content).len() == m3u_entry_count(lines(content)),
        forall|i: int|
            0 <= i < m3u_stations(content).len() ==> well_imported(
                #[trigger] m3u_stations(content)[i],
            ),
{
    lemma_m3u_fold(lines(content), M3uState { stations: seq![], next_name: seq![] });
}

proof fn lemma_pls_fold(ls: Seq<Seq<char>>, st: PlsState)
    requires
        forall|i: int| 0 <= i < st.files.len() ==> (#[trigger] st.files[i]).1.len() > 0,
        forall|i: int| 0 <= i < st.titles.len() ==> (#[trigger] st.titles[i]).1.len() > 0,
    ensures
        forall|i: int|
            0 <= i < pls_fold(ls, st).files.len() ==> (#[trigger] pls_fold(ls, st).files[i]).1.len()
                > 0,
        forall|i: int|
            0 <= i < pls_fold(ls, st).titles.len() ==> (#[trigger] pls_fold(
                ls,
                st,
            ).titles[i]).1.len() > 0,
    decreases ls.len(),
{
    if ls.len() > 0 {
        let next = pls_step(st, ls[0]);
        assert forall|i: int| 0 <= i < next.files.len() implies (#[trigger] next.files[i]).1.len()
            > 0 by {
            if i < st.files.len() {
                assert(next.files[i] == st.files[i]);
            }
        }
        assert forall|i: int| 0 <= i < next.titles.len() implies (
        #[trigger] next.titles[i]).1.len() > 0 by {
            if i < st.titles.len() {
                assert(next.titles[i] == st.titles[i]);
            }
        }
        lemma_pls_fold(ls.drop_first(), next);
        assert(pls_fold(ls, st) == pls_fold(ls.drop_first(), next));
    } else {
        assert(pls_fold(ls, st) == st);
    }
}

proof fn lemma_title_for(titles: Seq<(Seq<char>, Seq<char>)>, num: Seq<char>)
    requires
        forall|i: int| 0 <= i < titles.len() ==> (#[trigger] titles[i]).1.len() > 0,
    ensures
        title_for(titles, num) matches Some(t) ==> t.len() > 0,
    decreases titles.len(),
{
    if titles.len() > 0 {
        assert(titles.last() == titles[titles.len() - 1]);
        lemma_title_for(titles.drop_last(), num);
    }
}

/// A PLS file gives one station per `FileN` entry with a URL, in file order,
/// and every station it gives is well imported.
pub proof fn lemma_pls_stations(content: Seq<char>)
    ensures
        pls_stations(content).len() == pls_fold(
            pls_lines(content),
            PlsState { files: seq![], titles: seq![] },
        ).files.len(),
        forall|i: int|
            0 <= i < pls_stations(content).len() ==> well_imported(
                #[trigger] pls_stations(content)[i],
            ),
{
    let st = pls_fold(pls_lines(content), PlsState { files: seq![], titles: seq![] });
    lemma_pls_fold(pls_lines(content), PlsState { files: seq![], titles: seq![] });
    lemma_title_for(st.titles, seq![]);
    assert forall|i: int| 0 <= i < pls_stations(content).len() implies well_imported(
        #[trigger] pls_stations(content)[i],
    ) by {
        let f = st.files[i];
        lemma_title_for(st.titles, f.0);
        assert(pls_stations(content)[i] == pls_station(st.titles, f));
    }
}

} // verus!
