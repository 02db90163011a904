//! Texts and icons that the player shows for stations and streams.
use vstd::prelude::*;
use vstd::utf8::{char_u32_cast, is_scalar};

use crate::text::{
    ascii_lower, ascii_lower_char, ascii_upper, ascii_upper_char, chars_of, contains, copy_range,
    has_prefix, has_sub, is_ascii_text, lemma_trim_keeps_ascii, lowercase_of, starts_with, string_from_chars,
    to_lowercase, to_uppercase, trim, trim_chars, uppercase_of,
};

verus! {

// ---------------------------------------------------------------------------
// Country flags
// ---------------------------------------------------------------------------
/// An ASCII letter.
pub open spec fn is_ascii_letter(c: char) -> bool {
    ('A' <= c <= 'Z') || ('a' <= c <= 'z')
}

/// The code point of the regional indicator symbol for an ASCII letter,
/// taken case-insensitively: `A` gives U+1F1E6, `Z` gives U+1F1FF.
pub open spec fn regional_indicator_code(c: char) -> u32 {
    let u = c as u32;
    let upper = if 0x61 <= u { (u - 0x20) as u32 } else { u };
    (0x1F1E6 + upper - 0x41) as u32
}

/// The flag of a country code: a regional indicator for each ASCII letter
/// of the code, other characters left out.
pub open spec fn flag_of(code: Seq<char>) -> Seq<char>
    decreases code.len(),
{
    if code.len() == 0 {
        seq![]
    } else {
        let rest = flag_of(code.drop_last());
        if is_ascii_letter(code.last()) {
            rest.push(regional_indicator_code(code.last()) as char)
        } else {
            rest
        }
    }
}

/// `char::from_u32`: the character of a Unicode scalar value, `None` for
/// any other number.
#[verifier::external_body]
fn char_from_u32(u: u32) -> (r: Option<char>)
    ensures
        r is Some <==> is_scalar(u),
        r matches Some(c) ==> c as u32 == u,
{
    char::from_u32(u)
}

/// The flag emoji of a two-letter country code.
pub fn country_code_to_flag(code: &str) -> (r: String)
    ensures
        r@ == flag_of(code@),
{
    let cs = chars_of(code);
    let mut out: Vec<char> = Vec::new();
    for i in 0..cs.len()
        invariant
            cs@ == code@,
            out@ == flag_of(cs@.subrange(0, i as int)),
    {
        let c = cs[i];
        proof {
            assert(cs@.subrange(0, i + 1).drop_last() =~= cs@.subrange(0, i as int));
            assert(cs@.subrange(0, i + 1).last() == c);
        }
        if ('A' <= c && c <= 'Z') || ('a' <= c && c <= 'z') {
            let u = c as u32;
            let upper = if 0x61 <= u {
                u - 0x20
            } else {
                u
            };
            let code_point = 0x1F1E6 + upper - 0x41;
            assert(code_point == regional_indicator_code(c));
            match char_from_u32(code_point) {
                Some(f) => {
                    proof {
                        char_u32_cast(f, code_point);
                    }
                    out.push(f);
                },
                None => {},
            }
        }
    }
    proof {
        assert(cs@.subrange(0, cs@.len() as int) =~= cs@);
    }
    string_from_chars(&out)
}

// ---------------------------------------------------------------------------
// Playback time
// ---------------------------------------------------------------------------
/// The decimal digit character of `d < 10`.
pub open spec fn digit_char(d: nat) -> char {
    (0x30 + d) as char
}

/// The decimal representation of `n`, without leading zeros.
pub open spec fn decimal(n: nat) -> Seq<char>
    decreases n,
{
    if n < 10 {
        seq![digit_char(n)]
    } else {
        decimal(n / 10).push(digit_char(n % 10))
    }
}

/// `format!("{:02}", n)`: the decimal representation, padded with a leading
/// zero to two digits.
pub open spec fn two_digits(n: nat) -> Seq<char> {
    if n < 10 {
        seq!['0'].push(digit_char(n))
    } else {
        decimal(n)
    }
}

/// `mm:ss` for a playback position in whole seconds; the minutes grow past
/// two digits when they have to.
pub open spec fn clock_text(total_secs: nat) -> Seq<char> {
    two_digits(total_secs / 60) + seq![':'] + two_digits(total_secs % 60)
}

fn push_decimal(out: &mut Vec<char>, n: u64)
    ensures
        final(out)@ == old(out)@ + decimal(n as nat),
    decreases n,
{
    if n >= 10 {
        push_decimal(out, n / 10);
    }
    let d = (n % 10) as u32;
    let c: char = match d {
        0 => '0',
        1 => '1',
        2 => '2',
        3 => '3',
        4 => '4',
        5 => '5',
        6 => '6',
        7 => '7',
        8 => '8',
        _ => '9',
    };
    proof {
        assert(c == digit_char((n % 10) as nat));
    }
    out.push(c);
    proof {
        if n < 10 {
            assert(final(out)@ =~= old(out)@ + decimal(n as nat));
        } else {
            assert(decimal(n as nat) == decimal((n / 10) as nat).push(digit_char((n % 10) as nat)));
            assert(final(out)@ =~= old(out)@ + decimal(n as nat));
        }
    }
}

fn push_two_digits(out: &mut Vec<char>, n: u64)
    ensures
        final(out)@ == old(out)@ + two_digits(n as nat),
{
    if n < 10 {
        out.push('0');
    }
    push_decimal(out, n);
    proof {
        if n < 10 {
            assert(final(out)@ =~= old(out)@ + two_digits(n as nat));
        }
    }
}

/// The playback position as `mm:ss`.
pub fn format_time(total_secs: u64) -> (r: String)
    ensures
        r@ == clock_text(total_secs as nat),
{
    let mut out: Vec<char> = Vec::new();
    push_two_digits(&mut out, total_secs / 60);
    out.push(':');
    push_two_digits(&mut out, total_secs % 60);
    proof {
        assert(out@ =~= clock_text(total_secs as nat));
    }
    string_from_chars(&out)
}

// ---------------------------------------------------------------------------
// Tag icons
// ---------------------------------------------------------------------------
/// The icon for a lowercased tag: the first group of keywords that occurs in
/// the tag decides, from audio quality through genres, talk, regions and
/// general radio words, with a generic music icon as fallback.
pub open spec fn icon_for(t: Seq<char>) -> Seq<char> {
    if has_sub(t, "flac"@) || has_sub(t, "lossless"@) || has_sub(t, "hifi"@)
        || has_sub(t, "hi-fi"@) || has_sub(t, "audiophile"@) || has_sub(t, "320"@)
        || has_sub(t, "high quality"@) {
        "audio-headphones-symbolic"@
    } else if has_sub(t, "electron"@) || has_sub(t, "techno"@) || has_sub(t, "house"@)
        || has_sub(t, "trance"@) || has_sub(t, "edm"@) || has_sub(t, "dance"@)
        || has_sub(t, "dubstep"@) || has_sub(t, "drum and bass"@) || has_sub(t, "drum & bass"@)
        || has_sub(t, "dnb"@) || has_sub(t, "d&b"@) || has_sub(t, "jungle"@)
        || has_sub(t, "breakbeat"@) || has_sub(t, "hardcore"@) || has_sub(t, "rave"@) {
        "utilities-terminal-symbolic"@
    } else if has_sub(t, "hip-hop"@) || has_sub(t, "hiphop"@) || has_sub(t, "hip hop"@)
        || has_sub(t, "rap"@) || has_sub(t, "trap"@) || has_sub(t, "grime"@)
        || has_sub(t, "drill"@) {
        "microphone-sensitivity-high-symbolic"@
    } else if has_sub(t, "metal"@) || has_sub(t, "punk"@) || has_sub(t, "grunge"@)
        || has_sub(t, "hardcore"@) || has_sub(t, "thrash"@) || has_sub(t, "doom"@)
        || has_sub(t, "black metal"@) || has_sub(t, "heavy"@) {
        "media-optical-cd-audio-symbolic"@
    } else if has_sub(t, "rock"@) {
        "media-optical-cd-audio-symbolic"@
    } else if has_sub(t, "classical"@) || has_sub(t, "orchestra"@) || has_sub(t, "symphony"@)
        || has_sub(t, "opera"@) || has_sub(t, "chamber"@) || has_sub(t, "baroque"@)
        || has_sub(t, "choral"@) || has_sub(t, "philharmonic"@) {
        "emblem-music-symbolic"@
    } else if has_sub(t, "jazz"@) || has_sub(t, "swing"@) || has_sub(t, "big band"@)
        || has_sub(t, "bebop"@) || has_sub(t, "dixieland"@) || has_sub(t, "blues"@)
        || has_sub(t, "boogie"@) {
        "audio-x-generic-symbolic"@
    } else if has_sub(t, "soul"@) || has_sub(t, "funk"@) || has_sub(t, "rnb"@) || has_sub(t, "r&b"@)
        || has_sub(t, "motown"@) || has_sub(t, "gospel"@) || has_sub(t, "rhythm"@) {
        "emblem-favorite-symbolic"@
    } else if has_sub(t, "ambient"@) || has_sub(t, "chill"@) || has_sub(t, "lofi"@)
        || has_sub(t, "lo-fi"@) || has_sub(t, "relax"@) || has_sub(t, "meditation"@)
        || has_sub(t, "sleep"@) || has_sub(t, "new age"@) || has_sub(t, "newage"@)
        || has_sub(t, "nature"@) || has_sub(t, "spa"@) || has_sub(t, "healing"@) {
        "weather-clear-night-symbolic"@
    } else if has_sub(t, "pop"@) {
        "starred-symbolic"@
    } else if has_sub(t, "country"@) || has_sub(t, "folk"@) || has_sub(t, "bluegrass"@)
        || has_sub(t, "acoustic"@) || has_sub(t, "singer-songwriter"@)
        || has_sub(t, "americana"@) {
        "find-location-symbolic"@
    } else if has_sub(t, "latin"@) || has_sub(t, "salsa"@) || has_sub(t, "reggaeton"@)
        || has_sub(t, "cumbia"@) || has_sub(t, "bachata"@) || has_sub(t, "bossa"@)
        || has_sub(t, "samba"@) || has_sub(t, "merengue"@) || has_sub(t, "tango"@)
        || has_sub(t, "flamenco"@) || has_sub(t, "fado"@) {
        "emoji-activities-symbolic"@
    } else if has_sub(t, "reggae"@) || has_sub(t, "ska"@) || has_sub(t, "dub"@)
        || has_sub(t, "dancehall"@) {
        "weather-clear-symbolic"@
    } else if has_sub(t, "world"@) || has_sub(t, "international"@) || has_sub(t, "global"@)
        || has_sub(t, "multicultural"@) {
        "applications-internet-symbolic"@
    } else if has_sub(t, "instrumental"@) || has_sub(t, "piano"@) || has_sub(t, "guitar"@)
        || has_sub(t, "violin"@) || has_sub(t, "cello"@) || has_sub(t, "trumpet"@)
        || has_sub(t, "saxophone"@) || has_sub(t, "orchestra"@) {
        "emblem-music-symbolic"@
    } else if has_sub(t, "news"@) || has_sub(t, "talk"@) || has_sub(t, "speech"@)
        || has_sub(t, "podcast"@) || has_sub(t, "interview"@) || has_sub(t, "debate"@)
        || has_sub(t, "current affairs"@) {
        "dialog-information-symbolic"@
    } else if has_sub(t, "sport"@) || has_sub(t, "football"@) || has_sub(t, "soccer"@)
        || has_sub(t, "basketball"@) || has_sub(t, "baseball"@) || has_sub(t, "cricket"@)
        || has_sub(t, "rugby"@) || has_sub(t, "tennis"@) {
        "applications-games-symbolic"@
    } else if has_sub(t, "christian"@) || has_sub(t, "gospel"@) || has_sub(t, "spiritual"@)
        || has_sub(t, "religion"@) || has_sub(t, "worship"@) || has_sub(t, "church"@)
        || has_sub(t, "catholic"@) || has_sub(t, "orthodox"@) || has_sub(t, "islamic"@)
        || has_sub(t, "quran"@) || has_sub(t, "jewish"@) || has_sub(t, "buddhist"@) {
        "emblem-default-symbolic"@
    } else if has_sub(t, "child"@) || has_sub(t, "kids"@) || has_sub(t, "school"@)
        || has_sub(t, "education"@) || has_sub(t, "learn"@) || has_sub(t, "student"@)
        || has_sub(t, "college"@) || has_sub(t, "university"@) || has_sub(t, "campus"@) {
        "face-smile-symbolic"@
    } else if has_sub(t, "comedy"@) || has_sub(t, "humor"@) || has_sub(t, "humour"@)
        || has_sub(t, "satire"@) {
        "face-laugh-symbolic"@
    } else if has_sub(t, "50s"@) || has_sub(t, "60s"@) || has_sub(t, "70s"@) || has_sub(t, "80s"@)
        || has_sub(t, "90s"@) || has_sub(t, "2000s"@) || has_sub(t, "oldies"@)
        || has_sub(t, "vintage"@) || has_sub(t, "retro"@) || has_sub(t, "golden"@)
        || has_sub(t, "classic hits"@) || has_sub(t, "throwback"@) {
        "document-open-recent-symbolic"@
    } else if has_sub(t, "indie"@) || has_sub(t, "alternative"@) {
        "media-record-symbolic"@
    } else if has_sub(t, "live"@) || has_sub(t, "concert"@) || has_sub(t, "festival"@) {
        "media-record-symbolic"@
    } else if has_sub(t, "hits"@) || has_sub(t, "chart"@) || has_sub(t, "top 40"@)
        || has_sub(t, "variety"@) || has_sub(t, "mix"@) {
        "view-list-symbolic"@
    } else if has_sub(t, "christmas"@) || has_sub(t, "holiday"@) || has_sub(t, "seasonal"@)
        || has_sub(t, "xmas"@) {
        "starred-symbolic"@
    } else if has_sub(t, "japanese"@) || has_sub(t, "j-pop"@) || has_sub(t, "j-rock"@)
        || has_sub(t, "anime"@) {
        "applications-internet-symbolic"@
    } else if has_sub(t, "korean"@) || has_sub(t, "k-pop"@) || has_sub(t, "k-drama"@) {
        "applications-internet-symbolic"@
    } else if has_sub(t, "chinese"@) || has_sub(t, "mandarin"@) || has_sub(t, "cantonese"@)
        || has_sub(t, "taiwanese"@) {
        "applications-internet-symbolic"@
    } else if has_sub(t, "indian"@) || has_sub(t, "hindi"@) || has_sub(t, "bollywood"@)
        || has_sub(t, "bhangra"@) || has_sub(t, "carnatic"@) || has_sub(t, "filmi"@) {
        "emoji-activities-symbolic"@
    } else if has_sub(t, "bengali"@) || has_sub(t, "tamil"@) || has_sub(t, "telugu"@)
        || has_sub(t, "malayalam"@) || has_sub(t, "punjabi"@) {
        "emoji-activities-symbolic"@
    } else if has_sub(t, "thai"@) || has_sub(t, "vietnamese"@) || has_sub(t, "indonesian"@)
        || has_sub(t, "philippine"@) || has_sub(t, "malay"@) {
        "emoji-activities-symbolic"@
    } else if has_sub(t, "arabic"@) || has_sub(t, "arab"@) || has_sub(t, "khaleeji"@)
        || has_sub(t, "middle east"@) || has_sub(t, "levant"@) {
        "weather-clear-symbolic"@
    } else if has_sub(t, "persian"@) || has_sub(t, "farsi"@) || has_sub(t, "iranian"@) {
        "weather-clear-symbolic"@
    } else if has_sub(t, "turkish"@) || has_sub(t, "turk"@) {
        "weather-clear-symbolic"@
    } else if has_sub(t, "kurdish"@) {
        "weather-clear-symbolic"@
    } else if has_sub(t, "african"@) || has_sub(t, "afro"@) || has_sub(t, "afrobeat"@)
        || has_sub(t, "afropop"@) || has_sub(t, "highlife"@) || has_sub(t, "juju"@)
        || has_sub(t, "mbalax"@) {
        "find-location-symbolic"@
    } else if has_sub(t, "russian"@) || has_sub(t, "ukraine"@) || has_sub(t, "ukrainian"@)
        || has_sub(t, "polish"@) || has_sub(t, "czech"@) || has_sub(t, "slovak"@)
        || has_sub(t, "balkan"@) || has_sub(t, "serbian"@) || has_sub(t, "croatian"@)
        || has_sub(t, "bulgarian"@) || has_sub(t, "romanian"@) {
        "emblem-music-symbolic"@
    } else if has_sub(t, "french"@) || has_sub(t, "chanson"@) {
        "emblem-favorite-symbolic"@
    } else if has_sub(t, "german"@) || has_sub(t, "deutsch"@) || has_sub(t, "schlager"@)
        || has_sub(t, "volksmusik"@) {
        "emblem-music-symbolic"@
    } else if has_sub(t, "spanish"@) || has_sub(t, "espanol"@) {
        "emoji-activities-symbolic"@
    } else if has_sub(t, "italian"@) || has_sub(t, "italiano"@) || has_sub(t, "cantautore"@) {
        "emblem-favorite-symbolic"@
    } else if has_sub(t, "greek"@) || has_sub(t, "laika"@) || has_sub(t, "rebetiko"@) {
        "weather-clear-symbolic"@
    } else if has_sub(t, "celtic"@) || has_sub(t, "irish"@) || has_sub(t, "scottish"@)
        || has_sub(t, "welsh"@) || has_sub(t, "breton"@) {
        "find-location-symbolic"@
    } else if has_sub(t, "nordic"@) || has_sub(t, "scandinavian"@) || has_sub(t, "swedish"@)
        || has_sub(t, "norwegian"@) || has_sub(t, "danish"@) || has_sub(t, "finnish"@) {
        "weather-clear-night-symbolic"@
    } else if has_sub(t, "soundtrack"@) || has_sub(t, "film"@) || has_sub(t, "movie"@)
        || has_sub(t, "cinema"@) || has_sub(t, "score"@) {
        "video-display-symbolic"@
    } else if has_sub(t, "industrial"@) || has_sub(t, "noise"@) {
        "utilities-terminal-symbolic"@
    } else if has_sub(t, "new wave"@) || has_sub(t, "post-punk"@) || has_sub(t, "prog"@)
        || has_sub(t, "progressive"@) {
        "media-record-symbolic"@
    } else if has_sub(t, "lounge"@) || has_sub(t, "easy listening"@) || has_sub(t, "beautiful music"@)
        || has_sub(t, "adult contemporary"@) {
        "starred-symbolic"@
    } else if has_sub(t, "roots"@) {
        "find-location-symbolic"@
    } else if has_sub(t, "jazz fusion"@) {
        "audio-x-generic-symbolic"@
    } else if has_sub(t, "trip-hop"@) || has_sub(t, "triphop"@) || has_sub(t, "downtempo"@)
        || has_sub(t, "down tempo"@) {
        "weather-clear-night-symbolic"@
    } else if has_sub(t, "a cappella"@) || has_sub(t, "acappella"@) || has_sub(t, "vocal"@)
        || has_sub(t, "choir"@) {
        "audio-input-microphone-symbolic"@
    } else if has_sub(t, "karaoke"@) || has_sub(t, "instrumentals"@) {
        "media-record-symbolic"@
    } else if has_sub(t, "audiobook"@) || has_sub(t, "audio book"@) || has_sub(t, "audio drama"@) {
        "dialog-information-symbolic"@
    } else if has_sub(t, "public"@) || has_sub(t, "npr"@) || has_sub(t, "community"@)
        || has_sub(t, "traffic"@) || has_sub(t, "weather"@) || has_sub(t, "emergency"@) {
        "dialog-information-symbolic"@
    } else if has_sub(t, "top"@) || has_sub(t, "greatest"@) || has_sub(t, "request"@)
        || has_sub(t, "today"@) {
        "starred-symbolic"@
    } else if has_sub(t, "urban"@) || has_sub(t, "contemporary"@) {
        "emblem-favorite-symbolic"@
    } else if has_sub(t, "political"@) || has_sub(t, "politics"@) || has_sub(t, "government"@) {
        "dialog-information-symbolic"@
    } else if has_sub(t, "music"@) || has_sub(t, "musica"@) || has_sub(t, "musik"@) {
        "audio-x-generic-symbolic"@
    } else if has_sub(t, "radio"@) || has_sub(t, "broadcast"@) || has_sub(t, "stream"@) {
        "audio-input-microphone-symbolic"@
    } else {
        "audio-x-generic-symbolic"@
    }
}

fn icon_for_lowercase(t: &Vec<char>) -> (r: &'static str)
    ensures
        r@ == icon_for(t@),
{
    if contains(t, "flac") || contains(t, "lossless") || contains(t, "hifi")
        || contains(t, "hi-fi") || contains(t, "audiophile") || contains(t, "320")
        || contains(t, "high quality") {
        return "audio-headphones-symbolic";
    }
    if contains(t, "electron") || contains(t, "techno") || contains(t, "house")
        || contains(t, "trance") || contains(t, "edm") || contains(t, "dance")
        || contains(t, "dubstep") || contains(t, "drum and bass") || contains(t, "drum & bass")
        || contains(t, "dnb") || contains(t, "d&b") || contains(t, "jungle")
        || contains(t, "breakbeat") || contains(t, "hardcore") || contains(t, "rave") {
        return "utilities-terminal-symbolic";
    }
    if contains(t, "hip-hop") || contains(t, "hiphop") || contains(t, "hip hop")
        || contains(t, "rap") || contains(t, "trap") || contains(t, "grime")
        || contains(t, "drill") {
        return "microphone-sensitivity-high-symbolic";
    }
    if contains(t, "metal") || contains(t, "punk") || contains(t, "grunge")
        || contains(t, "hardcore") || contains(t, "thrash") || contains(t, "doom")
        || contains(t, "black metal") || contains(t, "heavy") {
        return "media-optical-cd-audio-symbolic";
    }
    if contains(t, "rock") {
        return "media-optical-cd-audio-symbolic";
    }
    if contains(t, "classical") || contains(t, "orchestra") || contains(t, "symphony")
        || contains(t, "opera") || contains(t, "chamber") || contains(t, "baroque")
        || contains(t, "choral") || contains(t, "philharmonic") {
        return "emblem-music-symbolic";
    }
    if contains(t, "jazz") || contains(t, "swing") || contains(t, "big band")
        || contains(t, "bebop") || contains(t, "dixieland") || contains(t, "blues")
        || contains(t, "boogie") {
        return "audio-x-generic-symbolic";
    }
    if contains(t, "soul") || contains(t, "funk") || contains(t, "rnb") || contains(t, "r&b")
        || contains(t, "motown") || contains(t, "gospel") || contains(t, "rhythm") {
        return "emblem-favorite-symbolic";
    }
    if contains(t, "ambient") || contains(t, "chill") || contains(t, "lofi")
        || contains(t, "lo-fi") || contains(t, "relax") || contains(t, "meditation")
        || contains(t, "sleep") || contains(t, "new age") || contains(t, "newage")
        || contains(t, "nature") || contains(t, "spa") || contains(t, "healing") {
        return "weather-clear-night-symbolic";
    }
    if contains(t, "pop") {
        return "starred-symbolic";
    }
    if contains(t, "country") || contains(t, "folk") || contains(t, "bluegrass")
        || contains(t, "acoustic") || contains(t, "singer-songwriter")
        || contains(t, "americana") {
        return "find-location-symbolic";
    }
    if contains(t, "latin") || contains(t, "salsa") || contains(t, "reggaeton")
        || contains(t, "cumbia") || contains(t, "bachata") || contains(t, "bossa")
        || contains(t, "samba") || contains(t, "merengue") || contains(t, "tango")
        || contains(t, "flamenco") || contains(t, "fado") {
        return "emoji-activities-symbolic";
    }
    if contains(t, "reggae") || contains(t, "ska") || contains(t, "dub")
        || contains(t, "dancehall") {
        return "weather-clear-symbolic";
    }
    if contains(t, "world") || contains(t, "international") || contains(t, "global")
        || contains(t, "multicultural") {
        return "applications-internet-symbolic";
    }
    if contains(t, "instrumental") || contains(t, "piano") || contains(t, "guitar")
        || contains(t, "violin") || contains(t, "cello") || contains(t, "trumpet")
        || contains(t, "saxophone") || contains(t, "orchestra") {
        return "emblem-music-symbolic";
    }
    if contains(t, "news") || contains(t, "talk") || contains(t, "speech")
        || contains(t, "podcast") || contains(t, "interview") || contains(t, "debate")
        || contains(t, "current affairs") {
        return "dialog-information-symbolic";
    }
    if contains(t, "sport") || contains(t, "football") || contains(t, "soccer")
        || contains(t, "basketball") || contains(t, "baseball") || contains(t, "cricket")
        || contains(t, "rugby") || contains(t, "tennis") {
        return "applications-games-symbolic";
    }
    if contains(t, "christian") || contains(t, "gospel") || contains(t, "spiritual")
        || contains(t, "religion") || contains(t, "worship") || contains(t, "church")
        || contains(t, "catholic") || contains(t, "orthodox") || contains(t, "islamic")
        || contains(t, "quran") || contains(t, "jewish") || contains(t, "buddhist") {
        return "emblem-default-symbolic";
    }
    if contains(t, "child") || contains(t, "kids") || contains(t, "school")
        || contains(t, "education") || contains(t, "learn") || contains(t, "student")
        || contains(t, "college") || contains(t, "university") || contains(t, "campus") {
        return "face-smile-symbolic";
    }
    if contains(t, "comedy") || contains(t, "humor") || contains(t, "humour")
        || contains(t, "satire") {
        return "face-laugh-symbolic";
    }
    if contains(t, "50s") || contains(t, "60s") || contains(t, "70s") || contains(t, "80s")
        || contains(t, "90s") || contains(t, "2000s") || contains(t, "oldies")
        || contains(t, "vintage") || contains(t, "retro") || contains(t, "golden")
        || contains(t, "classic hits") || contains(t, "throwback") {
        return "document-open-recent-symbolic";
    }
    if contains(t, "indie") || contains(t, "alternative") {
        return "media-record-symbolic";
    }
    if contains(t, "live") || contains(t, "concert") || contains(t, "festival") {
        return "media-record-symbolic";
    }
    if contains(t, "hits") || contains(t, "chart") || contains(t, "top 40")
        || contains(t, "variety") || contains(t, "mix") {
        return "view-list-symbolic";
    }
    if contains(t, "christmas") || contains(t, "holiday") || contains(t, "seasonal")
        || contains(t, "xmas") {
        return "starred-symbolic";
    }
    if contains(t, "japanese") || contains(t, "j-pop") || contains(t, "j-rock")
        || contains(t, "anime") {
        return "applications-internet-symbolic";
    }
    if contains(t, "korean") || contains(t, "k-pop") || contains(t, "k-drama") {
        return "applications-internet-symbolic";
    }
    if contains(t, "chinese") || contains(t, "mandarin") || contains(t, "cantonese")
        || contains(t, "taiwanese") {
        return "applications-internet-symbolic";
    }
    if contains(t, "indian") || contains(t, "hindi") || contains(t, "bollywood")
        || contains(t, "bhangra") || contains(t, "carnatic") || contains(t, "filmi") {
        return "emoji-activities-symbolic";
    }
    if contains(t, "bengali") || contains(t, "tamil") || contains(t, "telugu")
        || contains(t, "malayalam") || contains(t, "punjabi") {
        return "emoji-activities-symbolic";
    }
    if contains(t, "thai") || contains(t, "vietnamese") || contains(t, "indonesian")
        || contains(t, "philippine") || contains(t, "malay") {
        return "emoji-activities-symbolic";
    }
    if contains(t, "arabic") || contains(t, "arab") || contains(t, "khaleeji")
        || contains(t, "middle east") || contains(t, "levant") {
        return "weather-clear-symbolic";
    }
    if contains(t, "persian") || contains(t, "farsi") || contains(t, "iranian") {
        return "weather-clear-symbolic";
    }
    if contains(t, "turkish") || contains(t, "turk") {
        return "weather-clear-symbolic";
    }
    if contains(t, "kurdish") {
        return "weather-clear-symbolic";
    }
    if contains(t, "african") || contains(t, "afro") || contains(t, "afrobeat")
        || contains(t, "afropop") || contains(t, "highlife") || contains(t, "juju")
        || contains(t, "mbalax") {
        return "find-location-symbolic";
    }
    if contains(t, "russian") || contains(t, "ukraine") || contains(t, "ukrainian")
        || contains(t, "polish") || contains(t, "czech") || contains(t, "slovak")
        || contains(t, "balkan") || contains(t, "serbian") || contains(t, "croatian")
        || contains(t, "bulgarian") || contains(t, "romanian") {
        return "emblem-music-symbolic";
    }
    if contains(t, "french") || contains(t, "chanson") {
        return "emblem-favorite-symbolic";
    }
    if contains(t, "german") || contains(t, "deutsch") || contains(t, "schlager")
        || contains(t, "volksmusik") {
        return "emblem-music-symbolic";
    }
    if contains(t, "spanish") || contains(t, "espanol") {
        return "emoji-activities-symbolic";
    }
    if contains(t, "italian") || contains(t, "italiano") || contains(t, "cantautore") {
        return "emblem-favorite-symbolic";
    }
    if contains(t, "greek") || contains(t, "laika") || contains(t, "rebetiko") {
        return "weather-clear-symbolic";
    }
    if contains(t, "celtic") || contains(t, "irish") || contains(t, "scottish")
        || contains(t, "welsh") || contains(t, "breton") {
        return "find-location-symbolic";
    }
    if contains(t, "nordic") || contains(t, "scandinavian") || contains(t, "swedish")
        || contains(t, "norwegian") || contains(t, "danish") || contains(t, "finnish") {
        return "weather-clear-night-symbolic";
    }
    if contains(t, "soundtrack") || contains(t, "film") || contains(t, "movie")
        || contains(t, "cinema") || contains(t, "score") {
        return "video-display-symbolic";
    }
    if contains(t, "industrial") || contains(t, "noise") {
        return "utilities-terminal-symbolic";
    }
    if contains(t, "new wave") || contains(t, "post-punk") || contains(t, "prog")
        || contains(t, "progressive") {
        return "media-record-symbolic";
    }
    if contains(t, "lounge") || contains(t, "easy listening") || contains(t, "beautiful music")
        || contains(t, "adult contemporary") {
        return "starred-symbolic";
    }
    if contains(t, "roots") {
        return "find-location-symbolic";
    }
    if contains(t, "jazz fusion") {
        return "audio-x-generic-symbolic";
    }
    if contains(t, "trip-hop") || contains(t, "triphop") || contains(t, "downtempo")
        || contains(t, "down tempo") {
        return "weather-clear-night-symbolic";
    }
    if contains(t, "a cappella") || contains(t, "acappella") || contains(t, "vocal")
        || contains(t, "choir") {
        return "audio-input-microphone-symbolic";
    }
    if contains(t, "karaoke") || contains(t, "instrumentals") {
        return "media-record-symbolic";
    }
    if contains(t, "audiobook") || contains(t, "audio book") || contains(t, "audio drama") {
        return "dialog-information-symbolic";
    }
    if contains(t, "public") || contains(t, "npr") || contains(t, "community")
        || contains(t, "traffic") || contains(t, "weather") || contains(t, "emergency") {
        return "dialog-information-symbolic";
    }
    if contains(t, "top") || contains(t, "greatest") || contains(t, "request")
        || contains(t, "today") {
        return "starred-symbolic";
    }
    if contains(t, "urban") || contains(t, "contemporary") {
        return "emblem-favorite-symbolic";
    }
    if contains(t, "political") || contains(t, "politics") || contains(t, "government") {
        return "dialog-information-symbolic";
    }
    if contains(t, "music") || contains(t, "musica") || contains(t, "musik") {
        return "audio-x-generic-symbolic";
    }
    if contains(t, "radio") || contains(t, "broadcast") || contains(t, "stream") {
        return "audio-input-microphone-symbolic";
    }
    "audio-x-generic-symbolic"
}

/// The symbolic icon name for a custom tag, chosen by keywords in the
/// lowercased tag.
pub fn tag_to_icon(tag: &str) -> (r: &'static str)
    ensures
        r@ == icon_for(lowercase_of(tag@)),
        is_ascii_text(tag@) ==> r@ == icon_for(ascii_lower(tag@)),
{
    let lower = to_lowercase(tag);
    let t = chars_of(lower.as_str());
    icon_for_lowercase(&t)
}

// ---------------------------------------------------------------------------
// The icon rules as a table
// ---------------------------------------------------------------------------
/// The icon rules, in the order they are tried: each is a group of keywords
/// and the icon a tag gets when one of them occurs in it.
pub open spec fn icon_rules() -> Seq<(Seq<Seq<char>>, Seq<char>)> {
    seq![
        (seq!["flac"@, "lossless"@, "hifi"@, "hi-fi"@, "audiophile"@, "320"@, "high quality"@], "audio-headphones-symbolic"@),
        (seq!["electron"@, "techno"@, "house"@, "trance"@, "edm"@, "dance"@, "dubstep"@, "drum and bass"@, "drum & bass"@, "dnb"@, "d&b"@, "jungle"@, "breakbeat"@, "hardcore"@, "rave"@], "utilities-terminal-symbolic"@),
        (seq!["hip-hop"@, "hiphop"@, "hip hop"@, "rap"@, "trap"@, "grime"@, "drill"@], "microphone-sensitivity-high-symbolic"@),
        (seq!["metal"@, "punk"@, "grunge"@, "hardcore"@, "thrash"@, "doom"@, "black metal"@, "heavy"@], "media-optical-cd-audio-symbolic"@),
        (seq!["rock"@], "media-optical-cd-audio-symbolic"@),
        (seq!["classical"@, "orchestra"@, "symphony"@, "opera"@, "chamber"@, "baroque"@, "choral"@, "philharmonic"@], "emblem-music-symbolic"@),
        (seq!["jazz"@, "swing"@, "big band"@, "bebop"@, "dixieland"@, "blues"@, "boogie"@], "audio-x-generic-symbolic"@),
        (seq!["soul"@, "funk"@, "rnb"@, "r&b"@, "motown"@, "gospel"@, "rhythm"@], "emblem-favorite-symbolic"@),
        (seq!["ambient"@, "chill"@, "lofi"@, "lo-fi"@, "relax"@, "meditation"@, "sleep"@, "new age"@, "newage"@, "nature"@, "spa"@, "healing"@], "weather-clear-night-symbolic"@),
        (seq!["pop"@], "starred-symbolic"@),
        (seq!["country"@, "folk"@, "bluegrass"@, "acoustic"@, "singer-songwriter"@, "americana"@], "find-location-symbolic"@),
        (seq!["latin"@, "salsa"@, "reggaeton"@, "cumbia"@, "bachata"@, "bossa"@, "samba"@, "merengue"@, "tango"@, "flamenco"@, "fado"@], "emoji-activities-symbolic"@),
        (seq!["reggae"@, "ska"@, "dub"@, "dancehall"@], "weather-clear-symbolic"@),
        (seq!["world"@, "international"@, "global"@, "multicultural"@], "applications-internet-symbolic"@),
        (seq!["instrumental"@, "piano"@, "guitar"@, "violin"@, "cello"@, "trumpet"@, "saxophone"@, "orchestra"@], "emblem-music-symbolic"@),
        (seq!["news"@, "talk"@, "speech"@, "podcast"@, "interview"@, "debate"@, "current affairs"@], "dialog-information-symbolic"@),
        (seq!["sport"@, "football"@, "soccer"@, "basketball"@, "baseball"@, "cricket"@, "rugby"@, "tennis"@], "applications-games-symbolic"@),
        (seq!["christian"@, "gospel"@, "spiritual"@, "religion"@, "worship"@, "church"@, "catholic"@, "orthodox"@, "islamic"@, "quran"@, "jewish"@, "buddhist"@], "emblem-default-symbolic"@),
        (seq!["child"@, "kids"@, "school"@, "education"@, "learn"@, "student"@, "college"@, "university"@, "campus"@], "face-smile-symbolic"@),
        (seq!["comedy"@, "humor"@, "humour"@, "satire"@], "face-laugh-symbolic"@),
        (seq!["50s"@, "60s"@, "70s"@, "80s"@, "90s"@, "2000s"@, "oldies"@, "vintage"@, "retro"@, "golden"@, "classic hits"@, "throwback"@], "document-open-recent-symbolic"@),
        (seq!["indie"@, "alternative"@], "media-record-symbolic"@),
        (seq!["live"@, "concert"@, "festival"@], "media-record-symbolic"@),
        (seq!["hits"@, "chart"@, "top 40"@, "variety"@, "mix"@], "view-list-symbolic"@),
        (seq!["christmas"@, "holiday"@, "seasonal"@, "xmas"@], "starred-symbolic"@),
        (seq!["japanese"@, "j-pop"@, "j-rock"@, "anime"@], "applications-internet-symbolic"@),
        (seq!["korean"@, "k-pop"@, "k-drama"@], "applications-internet-symbolic"@),
        (seq!["chinese"@, "mandarin"@, "cantonese"@, "taiwanese"@], "applications-internet-symbolic"@),
        (seq!["indian"@, "hindi"@, "bollywood"@, "bhangra"@, "carnatic"@, "filmi"@], "emoji-activities-symbolic"@),
        (seq!["bengali"@, "tamil"@, "telugu"@, "malayalam"@, "punjabi"@], "emoji-activities-symbolic"@),
        (seq!["thai"@, "vietnamese"@, "indonesian"@, "philippine"@, "malay"@], "emoji-activities-symbolic"@),
        (seq!["arabic"@, "arab"@, "khaleeji"@, "middle east"@, "levant"@], "weather-clear-symbolic"@),
        (seq!["persian"@, "farsi"@, "iranian"@], "weather-clear-symbolic"@),
        (seq!["turkish"@, "turk"@], "weather-clear-symbolic"@),
        (seq!["kurdish"@], "weather-clear-symbolic"@),
        (seq!["african"@, "afro"@, "afrobeat"@, "afropop"@, "highlife"@, "juju"@, "mbalax"@], "find-location-symbolic"@),
        (seq!["russian"@, "ukraine"@, "ukrainian"@, "polish"@, "czech"@, "slovak"@, "balkan"@, "serbian"@, "croatian"@, "bulgarian"@, "romanian"@], "emblem-music-symbolic"@),
        (seq!["french"@, "chanson"@], "emblem-favorite-symbolic"@),
        (seq!["german"@, "deutsch"@, "schlager"@, "volksmusik"@], "emblem-music-symbolic"@),
        (seq!["spanish"@, "espanol"@], "emoji-activities-symbolic"@),
        (seq!["italian"@, "italiano"@, "cantautore"@], "emblem-favorite-symbolic"@),
        (seq!["greek"@, "laika"@, "rebetiko"@], "weather-clear-symbolic"@),
        (seq!["celtic"@, "irish"@, "scottish"@, "welsh"@, "breton"@], "find-location-symbolic"@),
        (seq!["nordic"@, "scandinavian"@, "swedish"@, "norwegian"@, "danish"@, "finnish"@], "weather-clear-night-symbolic"@),
        (seq!["soundtrack"@, "film"@, "movie"@, "cinema"@, "score"@], "video-display-symbolic"@),
        (seq!["industrial"@, "noise"@], "utilities-terminal-symbolic"@),
        (seq!["new wave"@, "post-punk"@, "prog"@, "progressive"@], "media-record-symbolic"@),
        (seq!["lounge"@, "easy listening"@, "beautiful music"@, "adult contemporary"@], "starred-symbolic"@),
        (seq!["roots"@], "find-location-symbolic"@),
        (seq!["jazz fusion"@], "audio-x-generic-symbolic"@),
        (seq!["trip-hop"@, "triphop"@, "downtempo"@, "down tempo"@], "weather-clear-night-symbolic"@),
        (seq!["a cappella"@, "acappella"@, "vocal"@, "choir"@], "audio-input-microphone-symbolic"@),
        (seq!["karaoke"@, "instrumentals"@], "media-record-symbolic"@),
        (seq!["audiobook"@, "audio book"@, "audio drama"@], "dialog-information-symbolic"@),
        (seq!["public"@, "npr"@, "community"@, "traffic"@, "weather"@, "emergency"@], "dialog-information-symbolic"@),
        (seq!["top"@, "greatest"@, "request"@, "today"@], "starred-symbolic"@),
        (seq!["urban"@, "contemporary"@], "emblem-favorite-symbolic"@),
        (seq!["political"@, "politics"@, "government"@], "dialog-information-symbolic"@),
        (seq!["music"@, "musica"@, "musik"@], "audio-x-generic-symbolic"@),
        (seq!["radio"@, "broadcast"@, "stream"@], "audio-input-microphone-symbolic"@),
    ]
}

/// Some keyword of `keys` from position `i` on occurs in `t`.
pub open spec fn mentions_from(t: Seq<char>, keys: Seq<Seq<char>>, i: int) -> bool
    decreases keys.len() - i,
{
    if 0 <= i < keys.len() {
        has_sub(t, keys[i]) || mentions_from(t, keys, i + 1)
    } else {
        false
    }
}

/// The icon of the first rule from position `g` of the table on that has a
/// keyword in `t`; the generic audio icon when no rule applies.
pub open spec fn first_rule_icon(t: Seq<char>, g: int) -> Seq<char>
    decreases icon_rules().len() - g,
{
    if 0 <= g < icon_rules().len() {
        if mentions_from(t, icon_rules()[g].0, 0) {
            icon_rules()[g].1
        } else {
            first_rule_icon(t, g + 1)
        }
    } else {
        "audio-x-generic-symbolic"@
    }
}

// One step of the table per rule: the rule applies exactly when one of its
// keywords occurs in the tag, as in `icon_for`.
proof fn lemma_icon_rule_0(t: Seq<char>)
    ensures
        first_rule_icon(t, 0) == if has_sub(t, "flac"@) || has_sub(t, "lossless"@) || has_sub(t, "hifi"@) || has_sub(t, "hi-fi"@) || has_sub(t, "audiophile"@) || has_sub(t, "320"@) || has_sub(t, "high quality"@) {
            "audio-headphones-symbolic"@
        } else {
            first_rule_icon(t, 1)
        },
{
    let keys = icon_rules()[0].0;
    assert(keys.len() == 7);
    reveal_with_fuel(mentions_from, 9);
}

proof fn lemma_icon_rule_1(t: Seq<char>)
    ensures
        first_rule_icon(t, 1) == if has_sub(t, "electron"@) || has_sub(t, "techno"@) || has_sub(t, "house"@) || has_sub(t, "trance"@) || has_sub(t, "edm"@) || has_sub(t, "dance"@) || has_sub(t, "dubstep"@) || has_sub(t, "drum and bass"@) || has_sub(t, "drum & bass"@) || has_sub(t, "dnb"@) || has_sub(t, "d&b"@) || has_sub(t, "jungle"@) || has_sub(t, "breakbeat"@) || has_sub(t, "hardcore"@) || has_sub(t, "rave"@) {
            "utilities-terminal-symbolic"@
        } else {
            first_rule_icon(t, 2)
        },
{
    let keys = icon_rules()[1].0;
    assert(keys.len() == 15);
    reveal_with_fuel(mentions_from, 17);
}

proof fn lemma_icon_rule_2(t: Seq<char>)
    ensures
        first_rule_icon(t, 2) == if has_sub(t, "hip-hop"@) || has_sub(t, "hiphop"@) || has_sub(t, "hip hop"@) || has_sub(t, "rap"@) || has_sub(t, "trap"@) || has_sub(t, "grime"@) || has_sub(t, "drill"@) {
            "microphone-sensitivity-high-symbolic"@
        } else {
            first_rule_icon(t, 3)
        },
{
    let keys = icon_rules()[2].0;
    assert(keys.len() == 7);
    reveal_with_fuel(mentions_from, 9);
}

proof fn lemma_icon_rule_3(t: Seq<char>)
    ensures
        first_rule_icon(t, 3) == if has_sub(t, "metal"@) || has_sub(t, "punk"@) || has_sub(t, "grunge"@) || has_sub(t, "hardcore"@) || has_sub(t, "thrash"@) || has_sub(t, "doom"@) || has_sub(t, "black metal"@) || has_sub(t, "heavy"@) {
            "media-optical-cd-audio-symbolic"@
        } else {
            first_rule_icon(t, 4)
        },
{
    let keys = icon_rules()[3].0;
    assert(keys.len() == 8);
    reveal_with_fuel(mentions_from, 10);
}

proof fn lemma_icon_rule_4(t: Seq<char>)
    ensures
        first_rule_icon(t, 4) == if has_sub(t, "rock"@) {
            "media-optical-cd-audio-symbolic"@
        } else {
            first_rule_icon(t, 5)
        },
{
    let keys = icon_rules()[4].0;
    assert(keys.len() == 1);
    reveal_with_fuel(mentions_from, 3);
}

proof fn lemma_icon_rule_5(t: Seq<char>)
    ensures
        first_rule_icon(t, 5) == if has_sub(t, "classical"@) || has_sub(t, "orchestra"@) || has_sub(t, "symphony"@) || has_sub(t, "opera"@) || has_sub(t, "chamber"@) || has_sub(t, "baroque"@) || has_sub(t, "choral"@) || has_sub(t, "philharmonic"@) {
            "emblem-music-symbolic"@
        } else {
            first_rule_icon(t, 6)
        },
{
    let keys = icon_rules()[5].0;
    assert(keys.len() == 8);
    reveal_with_fuel(mentions_from, 10);
}

proof fn lemma_icon_rule_6(t: Seq<char>)
    ensures
        first_rule_icon(t, 6) == if has_sub(t, "jazz"@) || has_sub(t, "swing"@) || has_sub(t, "big band"@) || has_sub(t, "bebop"@) || has_sub(t, "dixieland"@) || has_sub(t, "blues"@) || has_sub(t, "boogie"@) {
            "audio-x-generic-symbolic"@
        } else {
            first_rule_icon(t, 7)
        },
{
    let keys = icon_rules()[6].0;
    assert(keys.len() == 7);
    reveal_with_fuel(mentions_from, 9);
}

proof fn lemma_icon_rule_7(t: Seq<char>)
    ensures
        first_rule_icon(t, 7) == if has_sub(t, "soul"@) || has_sub(t, "funk"@) || has_sub(t, "rnb"@) || has_sub(t, "r&b"@) || has_sub(t, "motown"@) || has_sub(t, "gospel"@) || has_sub(t, "rhythm"@) {
            "emblem-favorite-symbolic"@
        } else {
            first_rule_icon(t, 8)
        },
{
    let keys = icon_rules()[7].0;
    assert(keys.len() == 7);
    reveal_with_fuel(mentions_from, 9);
}

proof fn lemma_icon_rule_8(t: Seq<char>)
    ensures
        first_rule_icon(t, 8) == if has_sub(t, "ambient"@) || has_sub(t, "chill"@) || has_sub(t, "lofi"@) || has_sub(t, "lo-fi"@) || has_sub(t, "relax"@) || has_sub(t, "meditation"@) || has_sub(t, "sleep"@) || has_sub(t, "new age"@) || has_sub(t, "newage"@) || has_sub(t, "nature"@) || has_sub(t, "spa"@) || has_sub(t, "healing"@) {
            "weather-clear-night-symbolic"@
        } else {
            first_rule_icon(t, 9)
        },
{
    let keys = icon_rules()[8].0;
    assert(keys.len() == 12);
    reveal_with_fuel(mentions_from, 14);
}

proof fn lemma_icon_rule_9(t: Seq<char>)
    ensures
        first_rule_icon(t, 9) == if has_sub(t, "pop"@) {
            "starred-symbolic"@
        } else {
            first_rule_icon(t, 10)
        },
{
    let keys = icon_rules()[9].0;
    assert(keys.len() == 1);
    reveal_with_fuel(mentions_from, 3);
}

proof fn lemma_icon_rule_10(t: Seq<char>)
    ensures
        first_rule_icon(t, 10) == if has_sub(t, "country"@) || has_sub(t, "folk"@) || has_sub(t, "bluegrass"@) || has_sub(t, "acoustic"@) || has_sub(t, "singer-songwriter"@) || has_sub(t, "americana"@) {
            "find-location-symbolic"@
        } else {
            first_rule_icon(t, 11)
        },
{
    let keys = icon_rules()[10].0;
    assert(keys.len() == 6);
    reveal_with_fuel(mentions_from, 8);
}

proof fn lemma_icon_rule_11(t: Seq<char>)
    ensures
        first_rule_icon(t, 11) == if has_sub(t, "latin"@) || has_sub(t, "salsa"@) || has_sub(t, "reggaeton"@) || has_sub(t, "cumbia"@) || has_sub(t, "bachata"@) || has_sub(t, "bossa"@) || has_sub(t, "samba"@) || has_sub(t, "merengue"@) || has_sub(t, "tango"@) || has_sub(t, "flamenco"@) || has_sub(t, "fado"@) {
            "emoji-activities-symbolic"@
        } else {
            first_rule_icon(t, 12)
        },
{
    let keys = icon_rules()[11].0;
    assert(keys.len() == 11);
    reveal_with_fuel(mentions_from, 13);
}

proof fn lemma_icon_rule_12(t: Seq<char>)
    ensures
        first_rule_icon(t, 12) == if has_sub(t, "reggae"@) || has_sub(t, "ska"@) || has_sub(t, "dub"@) || has_sub(t, "dancehall"@) {
            "weather-clear-symbolic"@
        } else {
            first_rule_icon(t, 13)
        },
{
    let keys = icon_rules()[12].0;
    assert(keys.len() == 4);
    reveal_with_fuel(mentions_from, 6);
}

proof fn lemma_icon_rule_13(t: Seq<char>)
    ensures
        first_rule_icon(t, 13) == if has_sub(t, "world"@) || has_sub(t, "international"@) || has_sub(t, "global"@) || has_sub(t, "multicultural"@) {
            "applications-internet-symbolic"@
        } else {
            first_rule_icon(t, 14)
        },
{
    let keys = icon_rules()[13].0;
    assert(keys.len() == 4);
    reveal_with_fuel(mentions_from, 6);
}

proof fn lemma_icon_rule_14(t: Seq<char>)
    ensures
        first_rule_icon(t, 14) == if has_sub(t, "instrumental"@) || has_sub(t, "piano"@) || has_sub(t, "guitar"@) || has_sub(t, "violin"@) || has_sub(t, "cello"@) || has_sub(t, "trumpet"@) || has_sub(t, "saxophone"@) || has_sub(t, "orchestra"@) {
            "emblem-music-symbolic"@
        } else {
            first_rule_icon(t, 15)
        },
{
    let keys = icon_rules()[14].0;
    assert(keys.len() == 8);
    reveal_with_fuel(mentions_from, 10);
}

proof fn lemma_icon_rule_15(t: Seq<char>)
    ensures
        first_rule_icon(t, 15) == if has_sub(t, "news"@) || has_sub(t, "talk"@) || has_sub(t, "speech"@) || has_sub(t, "podcast"@) || has_sub(t, "interview"@) || has_sub(t, "debate"@) || has_sub(t, "current affairs"@) {
            "dialog-information-symbolic"@
        } else {
            first_rule_icon(t, 16)
        },
{
    let keys = icon_rules()[15].0;
    assert(keys.len() == 7);
    reveal_with_fuel(mentions_from, 9);
}

proof fn lemma_icon_rule_16(t: Seq<char>)
    ensures
        first_rule_icon(t, 16) == if has_sub(t, "sport"@) || has_sub(t, "football"@) || has_sub(t, "soccer"@) || has_sub(t, "basketball"@) || has_sub(t, "baseball"@) || has_sub(t, "cricket"@) || has_sub(t, "rugby"@) || has_sub(t, "tennis"@) {
            "applications-games-symbolic"@
        } else {
            first_rule_icon(t, 17)
        },
{
    let keys = icon_rules()[16].0;
    assert(keys.len() == 8);
    reveal_with_fuel(mentions_from, 10);
}

proof fn lemma_icon_rule_17(t: Seq<char>)
    ensures
        first_rule_icon(t, 17) == if has_sub(t, "christian"@) || has_sub(t, "gospel"@) || has_sub(t, "spiritual"@) || has_sub(t, "religion"@) || has_sub(t, "worship"@) || has_sub(t, "church"@) || has_sub(t, "catholic"@) || has_sub(t, "orthodox"@) || has_sub(t, "islamic"@) || has_sub(t, "quran"@) || has_sub(t, "jewish"@) || has_sub(t, "buddhist"@) {
            "emblem-default-symbolic"@
        } else {
            first_rule_icon(t, 18)
        },
{
    let keys = icon_rules()[17].0;
    assert(keys.len() == 12);
    reveal_with_fuel(mentions_from, 14);
}

proof fn lemma_icon_rule_18(t: Seq<char>)
    ensures
        first_rule_icon(t, 18) == if has_sub(t, "child"@) || has_sub(t, "kids"@) || has_sub(t, "school"@) || has_sub(t, "education"@) || has_sub(t, "learn"@) || has_sub(t, "student"@) || has_sub(t, "college"@) || has_sub(t, "university"@) || has_sub(t, "campus"@) {
            "face-smile-symbolic"@
        } else {
            first_rule_icon(t, 19)
        },
{
    let keys = icon_rules()[18].0;
    assert(keys.len() == 9);
    reveal_with_fuel(mentions_from, 11);
}

proof fn lemma_icon_rule_19(t: Seq<char>)
    ensures
        first_rule_icon(t, 19) == if has_sub(t, "comedy"@) || has_sub(t, "humor"@) || has_sub(t, "humour"@) || has_sub(t, "satire"@) {
            "face-laugh-symbolic"@
        } else {
            first_rule_icon(t, 20)
        },
{
    let keys = icon_rules()[19].0;
    assert(keys.len() == 4);
    reveal_with_fuel(mentions_from, 6);
}

proof fn lemma_icon_rule_20(t: Seq<char>)
    ensures
        first_rule_icon(t, 20) == if has_sub(t, "50s"@) || has_sub(t, "60s"@) || has_sub(t, "70s"@) || has_sub(t, "80s"@) || has_sub(t, "90s"@) || has_sub(t, "2000s"@) || has_sub(t, "oldies"@) || has_sub(t, "vintage"@) || has_sub(t, "retro"@) || has_sub(t, "golden"@) || has_sub(t, "classic hits"@) || has_sub(t, "throwback"@) {
            "document-open-recent-symbolic"@
        } else {
            first_rule_icon(t, 21)
        },
{
    let keys = icon_rules()[20].0;
    assert(keys.len() == 12);
    reveal_with_fuel(mentions_from, 14);
}

proof fn lemma_icon_rule_21(t: Seq<char>)
    ensures
        first_rule_icon(t, 21) == if has_sub(t, "indie"@) || has_sub(t, "alternative"@) {
            "media-record-symbolic"@
        } else {
            first_rule_icon(t, 22)
        },
{
    let keys = icon_rules()[21].0;
    assert(keys.len() == 2);
    reveal_with_fuel(mentions_from, 4);
}

proof fn lemma_icon_rule_22(t: Seq<char>)
    ensures
        first_rule_icon(t, 22) == if has_sub(t, "live"@) || has_sub(t, "concert"@) || has_sub(t, "festival"@) {
            "media-record-symbolic"@
        } else {
            first_rule_icon(t, 23)
        },
{
    let keys = icon_rules()[22].0;
    assert(keys.len() == 3);
    reveal_with_fuel(mentions_from, 5);
}

proof fn lemma_icon_rule_23(t: Seq<char>)
    ensures
        first_rule_icon(t, 23) == if has_sub(t, "hits"@) || has_sub(t, "chart"@) || has_sub(t, "top 40"@) || has_sub(t, "variety"@) || has_sub(t, "mix"@) {
            "view-list-symbolic"@
        } else {
            first_rule_icon(t, 24)
        },
{
    let keys = icon_rules()[23].0;
    assert(keys.len() == 5);
    reveal_with_fuel(mentions_from, 7);
}

proof fn lemma_icon_rule_24(t: Seq<char>)
    ensures
        first_rule_icon(t, 24) == if has_sub(t, "christmas"@) || has_sub(t, "holiday"@) || has_sub(t, "seasonal"@) || has_sub(t, "xmas"@) {
            "starred-symbolic"@
        } else {
            first_rule_icon(t, 25)
        },
{
    let keys = icon_rules()[24].0;
    assert(keys.len() == 4);
    reveal_with_fuel(mentions_from, 6);
}

proof fn lemma_icon_rule_25(t: Seq<char>)
    ensures
        first_rule_icon(t, 25) == if has_sub(t, "japanese"@) || has_sub(t, "j-pop"@) || has_sub(t, "j-rock"@) || has_sub(t, "anime"@) {
            "applications-internet-symbolic"@
        } else {
            first_rule_icon(t, 26)
        },
{
    let keys = icon_rules()[25].0;
    assert(keys.len() == 4);
    reveal_with_fuel(mentions_from, 6);
}

proof fn lemma_icon_rule_26(t: Seq<char>)
    ensures
        first_rule_icon(t, 26) == if has_sub(t, "korean"@) || has_sub(t, "k-pop"@) || has_sub(t, "k-drama"@) {
            "applications-internet-symbolic"@
        } else {
            first_rule_icon(t, 27)
        },
{
    let keys = icon_rules()[26].0;
    assert(keys.len() == 3);
    reveal_with_fuel(mentions_from, 5);
}

proof fn lemma_icon_rule_27(t: Seq<char>)
    ensures
        first_rule_icon(t, 27) == if has_sub(t, "chinese"@) || has_sub(t, "mandarin"@) || has_sub(t, "cantonese"@) || has_sub(t, "taiwanese"@) {
            "applications-internet-symbolic"@
        } else {
            first_rule_icon(t, 28)
        },
{
    let keys = icon_rules()[27].0;
    assert(keys.len() == 4);
    reveal_with_fuel(mentions_from, 6);
}

proof fn lemma_icon_rule_28(t: Seq<char>)
    ensures
        first_rule_icon(t, 28) == if has_sub(t, "indian"@) || has_sub(t, "hindi"@) || has_sub(t, "bollywood"@) || has_sub(t, "bhangra"@) || has_sub(t, "carnatic"@) || has_sub(t, "filmi"@) {
            "emoji-activities-symbolic"@
        } else {
            first_rule_icon(t, 29)
        },
{
    let keys = icon_rules()[28].0;
    assert(keys.len() == 6);
    reveal_with_fuel(mentions_from, 8);
}

proof fn lemma_icon_rule_29(t: Seq<char>)
    ensures
        first_rule_icon(t, 29) == if has_sub(t, "bengali"@) || has_sub(t, "tamil"@) || has_sub(t, "telugu"@) || has_sub(t, "malayalam"@) || has_sub(t, "punjabi"@) {
            "emoji-activities-symbolic"@
        } else {
            first_rule_icon(t, 30)
        },
{
    let keys = icon_rules()[29].0;
    assert(keys.len() == 5);
    reveal_with_fuel(mentions_from, 7);
}

proof fn lemma_icon_rule_30(t: Seq<char>)
    ensures
        first_rule_icon(t, 30) == if has_sub(t, "thai"@) || has_sub(t, "vietnamese"@) || has_sub(t, "indonesian"@) || has_sub(t, "philippine"@) || has_sub(t, "malay"@) {
            "emoji-activities-symbolic"@
        } else {
            first_rule_icon(t, 31)
        },
{
    let keys = icon_rules()[30].0;
    assert(keys.len() == 5);
    reveal_with_fuel(mentions_from, 7);
}

proof fn lemma_icon_rule_31(t: Seq<char>)
    ensures
        first_rule_icon(t, 31) == if has_sub(t, "arabic"@) || has_sub(t, "arab"@) || has_sub(t, "khaleeji"@) || has_sub(t, "middle east"@) || has_sub(t, "levant"@) {
            "weather-clear-symbolic"@
        } else {
            first_rule_icon(t, 32)
        },
{
    let keys = icon_rules()[31].0;
    assert(keys.len() == 5);
    reveal_with_fuel(mentions_from, 7);
}

proof fn lemma_icon_rule_32(t: Seq<char>)
    ensures
        first_rule_icon(t, 32) == if has_sub(t, "persian"@) || has_sub(t, "farsi"@) || has_sub(t, "iranian"@) {
            "weather-clear-symbolic"@
        } else {
            first_rule_icon(t, 33)
        },
{
    let keys = icon_rules()[32].0;
    assert(keys.len() == 3);
    reveal_with_fuel(mentions_from, 5);
}

proof fn lemma_icon_rule_33(t: Seq<char>)
    ensures
        first_rule_icon(t, 33) == if has_sub(t, "turkish"@) || has_sub(t, "turk"@) {
            "weather-clear-symbolic"@
        } else {
            first_rule_icon(t, 34)
        },
{
    let keys = icon_rules()[33].0;
    assert(keys.len() == 2);
    reveal_with_fuel(mentions_from, 4);
}

proof fn lemma_icon_rule_34(t: Seq<char>)
    ensures
        first_rule_icon(t, 34) == if has_sub(t, "kurdish"@) {
            "weather-clear-symbolic"@
        } else {
            first_rule_icon(t, 35)
        },
{
    let keys = icon_rules()[34].0;
    assert(keys.len() == 1);
    reveal_with_fuel(mentions_from, 3);
}

proof fn lemma_icon_rule_35(t: Seq<char>)
    ensures
        first_rule_icon(t, 35) == if has_sub(t, "african"@) || has_sub(t, "afro"@) || has_sub(t, "afrobeat"@) || has_sub(t, "afropop"@) || has_sub(t, "highlife"@) || has_sub(t, "juju"@) || has_sub(t, "mbalax"@) {
            "find-location-symbolic"@
        } else {
            first_rule_icon(t, 36)
        },
{
    let keys = icon_rules()[35].0;
    assert(keys.len() == 7);
    reveal_with_fuel(mentions_from, 9);
}

proof fn lemma_icon_rule_36(t: Seq<char>)
    ensures
        first_rule_icon(t, 36) == if has_sub(t, "russian"@) || has_sub(t, "ukraine"@) || has_sub(t, "ukrainian"@) || has_sub(t, "polish"@) || has_sub(t, "czech"@) || has_sub(t, "slovak"@) || has_sub(t, "balkan"@) || has_sub(t, "serbian"@) || has_sub(t, "croatian"@) || has_sub(t, "bulgarian"@) || has_sub(t, "romanian"@) {
            "emblem-music-symbolic"@
        } else {
            first_rule_icon(t, 37)
        },
{
    let keys = icon_rules()[36].0;
    assert(keys.len() == 11);
    reveal_with_fuel(mentions_from, 13);
}

proof fn lemma_icon_rule_37(t: Seq<char>)
    ensures
        first_rule_icon(t, 37) == if has_sub(t, "french"@) || has_sub(t, "chanson"@) {
            "emblem-favorite-symbolic"@
        } else {
            first_rule_icon(t, 38)
        },
{
    let keys = icon_rules()[37].0;
    assert(keys.len() == 2);
    reveal_with_fuel(mentions_from, 4);
}

proof fn lemma_icon_rule_38(t: Seq<char>)
    ensures
        first_rule_icon(t, 38) == if has_sub(t, "german"@) || has_sub(t, "deutsch"@) || has_sub(t, "schlager"@) || has_sub(t, "volksmusik"@) {
            "emblem-music-symbolic"@
        } else {
            first_rule_icon(t, 39)
        },
{
    let keys = icon_rules()[38].0;
    assert(keys.len() == 4);
    reveal_with_fuel(mentions_from, 6);
}

proof fn lemma_icon_rule_39(t: Seq<char>)
    ensures
        first_rule_icon(t, 39) == if has_sub(t, "spanish"@) || has_sub(t, "espanol"@) {
            "emoji-activities-symbolic"@
        } else {
            first_rule_icon(t, 40)
        },
{
    let keys = icon_rules()[39].0;
    assert(keys.len() == 2);
    reveal_with_fuel(mentions_from, 4);
}

proof fn lemma_icon_rule_40(t: Seq<char>)
    ensures
        first_rule_icon(t, 40) == if has_sub(t, "italian"@) || has_sub(t, "italiano"@) || has_sub(t, "cantautore"@) {
            "emblem-favorite-symbolic"@
        } else {
            first_rule_icon(t, 41)
        },
{
    let keys = icon_rules()[40].0;
    assert(keys.len() == 3);
    reveal_with_fuel(mentions_from, 5);
}

proof fn lemma_icon_rule_41(t: Seq<char>)
    ensures
        first_rule_icon(t, 41) == if has_sub(t, "greek"@) || has_sub(t, "laika"@) || has_sub(t, "rebetiko"@) {
            "weather-clear-symbolic"@
        } else {
            first_rule_icon(t, 42)
        },
{
    let keys = icon_rules()[41].0;
    assert(keys.len() == 3);
    reveal_with_fuel(mentions_from, 5);
}

proof fn lemma_icon_rule_42(t: Seq<char>)
    ensures
        first_rule_icon(t, 42) == if has_sub(t, "celtic"@) || has_sub(t, "irish"@) || has_sub(t, "scottish"@) || has_sub(t, "welsh"@) || has_sub(t, "breton"@) {
            "find-location-symbolic"@
        } else {
            first_rule_icon(t, 43)
        },
{
    let keys = icon_rules()[42].0;
    assert(keys.len() == 5);
    reveal_with_fuel(mentions_from, 7);
}

proof fn lemma_icon_rule_43(t: Seq<char>)
    ensures
        first_rule_icon(t, 43) == if has_sub(t, "nordic"@) || has_sub(t, "scandinavian"@) || has_sub(t, "swedish"@) || has_sub(t, "norwegian"@) || has_sub(t, "danish"@) || has_sub(t, "finnish"@) {
            "weather-clear-night-symbolic"@
        } else {
            first_rule_icon(t, 44)
        },
{
    let keys = icon_rules()[43].0;
    assert(keys.len() == 6);
    reveal_with_fuel(mentions_from, 8);
}

proof fn lemma_icon_rule_44(t: Seq<char>)
    ensures
        first_rule_icon(t, 44) == if has_sub(t, "soundtrack"@) || has_sub(t, "film"@) || has_sub(t, "movie"@) || has_sub(t, "cinema"@) || has_sub(t, "score"@) {
            "video-display-symbolic"@
        } else {
            first_rule_icon(t, 45)
        },
{
    let keys = icon_rules()[44].0;
    assert(keys.len() == 5);
    reveal_with_fuel(mentions_from, 7);
}

proof fn lemma_icon_rule_45(t: Seq<char>)
    ensures
        first_rule_icon(t, 45) == if has_sub(t, "industrial"@) || has_sub(t, "noise"@) {
            "utilities-terminal-symbolic"@
        } else {
            first_rule_icon(t, 46)
        },
{
    let keys = icon_rules()[45].0;
    assert(keys.len() == 2);
    reveal_with_fuel(mentions_from, 4);
}

proof fn lemma_icon_rule_46(t: Seq<char>)
    ensures
        first_rule_icon(t, 46) == if has_sub(t, "new wave"@) || has_sub(t, "post-punk"@) || has_sub(t, "prog"@) || has_sub(t, "progressive"@) {
            "media-record-symbolic"@
        } else {
            first_rule_icon(t, 47)
        },
{
    let keys = icon_rules()[46].0;
    assert(keys.len() == 4);
    reveal_with_fuel(mentions_from, 6);
}

proof fn lemma_icon_rule_47(t: Seq<char>)
    ensures
        first_rule_icon(t, 47) == if has_sub(t, "lounge"@) || has_sub(t, "easy listening"@) || has_sub(t, "beautiful music"@) || has_sub(t, "adult contemporary"@) {
            "starred-symbolic"@
        } else {
            first_rule_icon(t, 48)
        },
{
    let keys = icon_rules()[47].0;
    assert(keys.len() == 4);
    reveal_with_fuel(mentions_from, 6);
}

proof fn lemma_icon_rule_48(t: Seq<char>)
    ensures
        first_rule_icon(t, 48) == if has_sub(t, "roots"@) {
            "find-location-symbolic"@
        } else {
            first_rule_icon(t, 49)
        },
{
    let keys = icon_rules()[48].0;
    assert(keys.len() == 1);
    reveal_with_fuel(mentions_from, 3);
}

proof fn lemma_icon_rule_49(t: Seq<char>)
    ensures
        first_rule_icon(t, 49) == if has_sub(t, "jazz fusion"@) {
            "audio-x-generic-symbolic"@
        } else {
            first_rule_icon(t, 50)
        },
{
    let keys = icon_rules()[49].0;
    assert(keys.len() == 1);
    reveal_with_fuel(mentions_from, 3);
}

proof fn lemma_icon_rule_50(t: Seq<char>)
    ensures
        first_rule_icon(t, 50) == if has_sub(t, "trip-hop"@) || has_sub(t, "triphop"@) || has_sub(t, "downtempo"@) || has_sub(t, "down tempo"@) {
            "weather-clear-night-symbolic"@
        } else {
            first_rule_icon(t, 51)
        },
{
    let keys = icon_rules()[50].0;
    assert(keys.len() == 4);
    reveal_with_fuel(mentions_from, 6);
}

proof fn lemma_icon_rule_51(t: Seq<char>)
    ensures
        first_rule_icon(t, 51) == if has_sub(t, "a cappella"@) || has_sub(t, "acappella"@) || has_sub(t, "vocal"@) || has_sub(t, "choir"@) {
            "audio-input-microphone-symbolic"@
        } else {
            first_rule_icon(t, 52)
        },
{
    let keys = icon_rules()[51].0;
    assert(keys.len() == 4);
    reveal_with_fuel(mentions_from, 6);
}

proof fn lemma_icon_rule_52(t: Seq<char>)
    ensures
        first_rule_icon(t, 52) == if has_sub(t, "karaoke"@) || has_sub(t, "instrumentals"@) {
            "media-record-symbolic"@
        } else {
            first_rule_icon(t, 53)
        },
{
    let keys = icon_rules()[52].0;
    assert(keys.len() == 2);
    reveal_with_fuel(mentions_from, 4);
}

proof fn lemma_icon_rule_53(t: Seq<char>)
    ensures
        first_rule_icon(t, 53) == if has_sub(t, "audiobook"@) || has_sub(t, "audio book"@) || has_sub(t, "audio drama"@) {
            "dialog-information-symbolic"@
        } else {
            first_rule_icon(t, 54)
        },
{
    let keys = icon_rules()[53].0;
    assert(keys.len() == 3);
    reveal_with_fuel(mentions_from, 5);
}

proof fn lemma_icon_rule_54(t: Seq<char>)
    ensures
        first_rule_icon(t, 54) == if has_sub(t, "public"@) || has_sub(t, "npr"@) || has_sub(t, "community"@) || has_sub(t, "traffic"@) || has_sub(t, "weather"@) || has_sub(t, "emergency"@) {
            "dialog-information-symbolic"@
        } else {
            first_rule_icon(t, 55)
        },
{
    let keys = icon_rules()[54].0;
    assert(keys.len() == 6);
    reveal_with_fuel(mentions_from, 8);
}

proof fn lemma_icon_rule_55(t: Seq<char>)
    ensures
        first_rule_icon(t, 55) == if has_sub(t, "top"@) || has_sub(t, "greatest"@) || has_sub(t, "request"@) || has_sub(t, "today"@) {
            "starred-symbolic"@
        } else {
            first_rule_icon(t, 56)
        },
{
    let keys = icon_rules()[55].0;
    assert(keys.len() == 4);
    reveal_with_fuel(mentions_from, 6);
}

proof fn lemma_icon_rule_56(t: Seq<char>)
    ensures
        first_rule_icon(t, 56) == if has_sub(t, "urban"@) || has_sub(t, "contemporary"@) {
            "emblem-favorite-symbolic"@
        } else {
            first_rule_icon(t, 57)
        },
{
    let keys = icon_rules()[56].0;
    assert(keys.len() == 2);
    reveal_with_fuel(mentions_from, 4);
}

proof fn lemma_icon_rule_57(t: Seq<char>)
    ensures
        first_rule_icon(t, 57) == if has_sub(t, "political"@) || has_sub(t, "politics"@) || has_sub(t, "government"@) {
            "dialog-information-symbolic"@
        } else {
            first_rule_icon(t, 58)
        },
{
    let keys = icon_rules()[57].0;
    assert(keys.len() == 3);
    reveal_with_fuel(mentions_from, 5);
}

proof fn lemma_icon_rule_58(t: Seq<char>)
    ensures
        first_rule_icon(t, 58) == if has_sub(t, "music"@) || has_sub(t, "musica"@) || has_sub(t, "musik"@) {
            "audio-x-generic-symbolic"@
        } else {
            first_rule_icon(t, 59)
        },
{
    let keys = icon_rules()[58].0;
    assert(keys.len() == 3);
    reveal_with_fuel(mentions_from, 5);
}

proof fn lemma_icon_rule_59(t: Seq<char>)
    ensures
        first_rule_icon(t, 59) == if has_sub(t, "radio"@) || has_sub(t, "broadcast"@) || has_sub(t, "stream"@) {
            "audio-input-microphone-symbolic"@
        } else {
            first_rule_icon(t, 60)
        },
{
    let keys = icon_rules()[59].0;
    assert(keys.len() == 3);
    reveal_with_fuel(mentions_from, 5);
}

/// The icon of a lowercased tag is that of the first rule of the table with
/// a keyword that occurs in the tag, and the generic audio icon when no rule
/// does: a tag that holds a keyword of a rule and none of any earlier rule
/// gets that rule's icon.
pub proof fn lemma_icon_rules(t: Seq<char>)
    ensures
        icon_for(t) == first_rule_icon(t, 0),
{
    lemma_icon_rule_0(t);
    lemma_icon_rule_1(t);
    lemma_icon_rule_2(t);
    lemma_icon_rule_3(t);
    lemma_icon_rule_4(t);
    lemma_icon_rule_5(t);
    lemma_icon_rule_6(t);
    lemma_icon_rule_7(t);
    lemma_icon_rule_8(t);
    lemma_icon_rule_9(t);
    lemma_icon_rule_10(t);
    lemma_icon_rule_11(t);
    lemma_icon_rule_12(t);
    lemma_icon_rule_13(t);
    lemma_icon_rule_14(t);
    lemma_icon_rule_15(t);
    lemma_icon_rule_16(t);
    lemma_icon_rule_17(t);
    lemma_icon_rule_18(t);
    lemma_icon_rule_19(t);
    lemma_icon_rule_20(t);
    lemma_icon_rule_21(t);
    lemma_icon_rule_22(t);
    lemma_icon_rule_23(t);
    lemma_icon_rule_24(t);
    lemma_icon_rule_25(t);
    lemma_icon_rule_26(t);
    lemma_icon_rule_27(t);
    lemma_icon_rule_28(t);
    lemma_icon_rule_29(t);
    lemma_icon_rule_30(t);
    lemma_icon_rule_31(t);
    lemma_icon_rule_32(t);
    lemma_icon_rule_33(t);
    lemma_icon_rule_34(t);
    lemma_icon_rule_35(t);
    lemma_icon_rule_36(t);
    lemma_icon_rule_37(t);
    lemma_icon_rule_38(t);
    lemma_icon_rule_39(t);
    lemma_icon_rule_40(t);
    lemma_icon_rule_41(t);
    lemma_icon_rule_42(t);
    lemma_icon_rule_43(t);
    lemma_icon_rule_44(t);
    lemma_icon_rule_45(t);
    lemma_icon_rule_46(t);
    lemma_icon_rule_47(t);
    lemma_icon_rule_48(t);
    lemma_icon_rule_49(t);
    lemma_icon_rule_50(t);
    lemma_icon_rule_51(t);
    lemma_icon_rule_52(t);
    lemma_icon_rule_53(t);
    lemma_icon_rule_54(t);
    lemma_icon_rule_55(t);
    lemma_icon_rule_56(t);
    lemma_icon_rule_57(t);
    lemma_icon_rule_58(t);
    lemma_icon_rule_59(t);
    assert(first_rule_icon(t, 60) == "audio-x-generic-symbolic"@);
}

proof fn lemma_mentions_from(t: Seq<char>, keys: Seq<Seq<char>>, i: int, k: int)
    requires
        0 <= i <= k < keys.len(),
        has_sub(t, keys[k]),
    ensures
        mentions_from(t, keys, i),
    decreases k - i,
{
    if i < k {
        lemma_mentions_from(t, keys, i + 1, k);
    }
}

proof fn lemma_first_rule_skips(t: Seq<char>, g: int)
    requires
        0 <= g <= icon_rules().len(),
        forall|h: int| 0 <= h < g ==> !mentions_from(t, #[trigger] icon_rules()[h].0, 0),
    ensures
        first_rule_icon(t, 0) == first_rule_icon(t, g),
    decreases g,
{
    if g > 0 {
        lemma_first_rule_skips(t, g - 1);
        assert(!mentions_from(t, icon_rules()[g - 1].0, 0));
    }
}

/// A lowercased tag that holds keyword `k` of rule `g` of the table, and no
/// keyword of any earlier rule, gets the icon of rule `g`; a tag that holds
/// no keyword of any rule gets the generic audio icon.
pub proof fn lemma_icon_keyword(t: Seq<char>, g: int, k: int)
    ensures
        0 <= g < icon_rules().len() && 0 <= k < icon_rules()[g].0.len() && has_sub(
            t,
            icon_rules()[g].0[k],
        ) && (forall|h: int|
            0 <= h < g ==> !mentions_from(t, #[trigger] icon_rules()[h].0, 0)) ==> icon_for(t)
            == icon_rules()[g].1,
        (forall|h: int|
            0 <= h < icon_rules().len() ==> !mentions_from(t, #[trigger] icon_rules()[h].0, 0))
            ==> icon_for(t) == "audio-x-generic-symbolic"@,
{
    lemma_icon_rules(t);
    if 0 <= g < icon_rules().len() && 0 <= k < icon_rules()[g].0.len() && has_sub(
        t,
        icon_rules()[g].0[k],
    ) && (forall|h: int| 0 <= h < g ==> !mentions_from(t, #[trigger] icon_rules()[h].0, 0)) {
        lemma_first_rule_skips(t, g);
        lemma_mentions_from(t, icon_rules()[g].0, 0, k);
    }
    if forall|h: int|
        0 <= h < icon_rules().len() ==> !mentions_from(t, #[trigger] icon_rules()[h].0, 0) {
        lemma_first_rule_skips(t, icon_rules().len() as int);
    }
}

// ---------------------------------------------------------------------------
// Stream details
// ---------------------------------------------------------------------------
/// `str::trim_start_matches(p)`: `s` without any number of leading copies of `p`.
pub open spec fn strip_prefixes(s: Seq<char>, p: Seq<char>) -> Seq<char>
    decreases s.len(),
{
    if p.len() > 0 && has_prefix(s, p) {
        strip_prefixes(s.subrange(p.len() as int, s.len() as int), p)
    } else {
        s
    }
}

/// The codec name shown for the MIME type of an audio stream: a short name
/// for the common formats, the uppercased subtype for other audio types,
/// and none for types outside `audio/`.
pub open spec fn codec_name(mime: Seq<char>) -> Option<Seq<char>> {
    if mime == "audio/mpeg"@ {
        Some("MP3"@)
    } else if mime == "audio/x-flac"@ {
        Some("FLAC"@)
    } else if mime == "audio/x-vorbis"@ {
        Some("Vorbis"@)
    } else if mime == "audio/x-opus"@ {
        Some("Opus"@)
    } else if mime == "audio/x-aac"@ || mime == "audio/aac"@ || mime == "audio/mp4a-latm"@ {
        Some("AAC"@)
    } else if mime == "audio/x-wma"@ {
        Some("WMA"@)
    } else if mime == "audio/x-alac"@ {
        Some("ALAC"@)
    } else if mime == "audio/x-speex"@ {
        Some("Speex"@)
    } else if mime == "audio/x-raw"@ {
        Some("PCM"@)
    } else if has_prefix(mime, "audio/"@) {
        Some(uppercase_of(strip_prefixes(strip_prefixes(mime, "audio/x-"@), "audio/"@)))
    } else {
        None
    }
}

fn equals_str(s: &Vec<char>, lit: &str) -> (r: bool)
    ensures
        r == (s@ == lit@),
{
    let l = chars_of(lit);
    crate::text::chars_eq(s, &l)
}

fn strip_all(s: Vec<char>, p: &str) -> (r: Vec<char>)
    ensures
        r@ == strip_prefixes(s@, p@),
{
    let pl = chars_of(p).len();
    let mut s = s;
    let ghost orig = s@;
    loop
        invariant
            pl == p@.len(),
            strip_prefixes(orig, p@) == strip_prefixes(s@, p@),
        ensures
            strip_prefixes(orig, p@) == s@,
        decreases s@.len(),
    {
        if pl == 0 || !starts_with(&s, p) {
            break;
        }
        s = copy_range(&s, pl, s.len());
    }
    s
}

/// The codec name for the MIME type of an audio stream.
pub fn codec_from_mime(mime: &str) -> (r: Option<String>)
    ensures
        match r {
            Some(c) => codec_name(mime@) == Some(c@),
            None => codec_name(mime@) is None,
        },
{
    let m = chars_of(mime);
    if equals_str(&m, "audio/mpeg") {
        Some(String::from_str("MP3"))
    } else if equals_str(&m, "audio/x-flac") {
        Some(String::from_str("FLAC"))
    } else if equals_str(&m, "audio/x-vorbis") {
        Some(String::from_str("Vorbis"))
    } else if equals_str(&m, "audio/x-opus") {
        Some(String::from_str("Opus"))
    } else if equals_str(&m, "audio/x-aac") || equals_str(&m, "audio/aac") || equals_str(
        &m,
        "audio/mp4a-latm",
    ) {
        Some(String::from_str("AAC"))
    } else if equals_str(&m, "audio/x-wma") {
        Some(String::from_str("WMA"))
    } else if equals_str(&m, "audio/x-alac") {
        Some(String::from_str("ALAC"))
    } else if equals_str(&m, "audio/x-speex") {
        Some(String::from_str("Speex"))
    } else if equals_str(&m, "audio/x-raw") {
        Some(String::from_str("PCM"))
    } else if starts_with(&m, "audio/") {
        let a = strip_all(m, "audio/x-");
        let b = strip_all(a, "audio/");
        let bs = string_from_chars(&b);
        Some(to_uppercase(bs.as_str()))
    } else {
        None
    }
}

/// The stream title line: a note sign and the title, or `Live Stream` while
/// the stream has announced none.
pub open spec fn title_line(title: Option<Seq<char>>) -> Seq<char> {
    match title {
        Some(t) => "\u{266B} "@ + t,
        None => "\u{266B} "@ + "Live Stream"@,
    }
}

/// The stream title line.
pub fn stream_title_line(title: &Option<String>) -> (r: String)
    ensures
        r@ == title_line(match title {
            Some(t) => Some(t@),
            None => None,
        }),
{
    let mut out = String::from_str("\u{266B} ");
    match title {
        Some(t) => out.append(t.as_str()),
        None => out.append("Live Stream"),
    }
    out
}

/// `parts` joined by `sep`.
pub open spec fn joined(parts: Seq<Seq<char>>, sep: Seq<char>) -> Seq<char>
    decreases parts.len(),
{
    if parts.len() == 0 {
        seq![]
    } else if parts.len() == 1 {
        parts[0]
    } else {
        joined(parts.drop_last(), sep) + sep + parts.last()
    }
}

/// The stream details line: the known details joined by middle dots.
pub fn stream_info_line(parts: &Vec<String>) -> (r: String)
    ensures
        r@ == joined(parts@.map_values(|p: String| p@), " \u{B7} "@),
{
    let ghost pv = parts@.map_values(|p: String| p@);
    let ghost sep = " \u{B7} "@;
    let mut out = String::new();
    for i in 0..parts.len()
        invariant
            pv == parts@.map_values(|p: String| p@),
            sep == " \u{B7} "@,
            out@ == joined(pv.subrange(0, i as int), sep),
    {
        proof {
            assert(pv.subrange(0, i + 1).drop_last() =~= pv.subrange(0, i as int));
        }
        if i > 0 {
            out.append(" \u{B7} ");
            proof {
                assert(out@ =~= joined(pv.subrange(0, i as int), sep) + sep);
            }
        }
        out.append(parts[i].as_str());
        proof {
            if i == 0 {
                assert(pv.subrange(0, 1)[0] == pv[0]);
            }
        }
    }
    proof {
        assert(pv.subrange(0, parts.len() as int) =~= pv);
    }
    out
}

// ---------------------------------------------------------------------------
// Station rows
// ---------------------------------------------------------------------------
/// The decimal text of a number.
pub fn decimal_string(n: u64) -> (r: String)
    ensures
        r@ == decimal(n as nat),
{
    let mut out: Vec<char> = Vec::new();
    push_decimal(&mut out, n);
    proof {
        assert(out@ =~= decimal(n as nat));
    }
    string_from_chars(&out)
}

/// The subtitle of a fetched station: flag (if any), country and tags, and
/// the bitrate when it is known and not zero.
pub open spec fn row_subtitle(
    flag: Seq<char>,
    country: Seq<char>,
    tags: Seq<char>,
    bitrate: Option<u32>,
) -> Seq<char> {
    let base = if flag.len() == 0 {
        country + " | "@ + tags
    } else {
        flag + " "@ + country + " | "@ + tags
    };
    match bitrate {
        Some(b) => if b > 0 {
            base + " | "@ + decimal(b as nat) + " kbps"@
        } else {
            base
        },
        None => base,
    }
}

/// The subtitle of a fetched station row.
pub fn station_row_subtitle(flag: &str, country: &str, tags: &str, bitrate: Option<u32>) -> (r: String)
    ensures
        r@ == row_subtitle(flag@, country@, tags@, bitrate),
{
    let mut s = String::new();
    if !flag.is_empty() {
        s.append(flag);
        s.append(" ");
    }
    s.append(country);
    s.append(" | ");
    s.append(tags);
    match bitrate {
        Some(b) => {
            if b > 0 {
                s.append(" | ");
                let d = decimal_string(b as u64);
                s.append(d.as_str());
                s.append(" kbps");
            }
        },
        None => {},
    }
    s
}

/// The subtitle of a saved station (favourites, recently played): country
/// and tags, and the bitrate in brackets when it is known.
pub open spec fn saved_row_subtitle(country: Seq<char>, tags: Seq<char>, bitrate: Option<u32>) -> Seq<char> {
    country + " | "@ + tags + match bitrate {
        Some(b) => " ["@ + decimal(b as nat) + " kbps]"@,
        None => seq![],
    }
}

/// The subtitle of a saved station row.
pub fn saved_station_subtitle(country: &str, tags: &str, bitrate: Option<u32>) -> (r: String)
    ensures
        r@ == saved_row_subtitle(country@, tags@, bitrate),
{
    let mut s = String::from_str(country);
    s.append(" | ");
    s.append(tags);
    match bitrate {
        Some(b) => {
            s.append(" [");
            let d = decimal_string(b as u64);
            s.append(d.as_str());
            s.append(" kbps]");
        },
        None => {},
    }
    s
}

/// The subtitle of the station being played: country and tags, and the
/// bitrate in parentheses when it is known.
pub open spec fn playing_subtitle(country: Seq<char>, tags: Seq<char>, bitrate: Option<u32>) -> Seq<char> {
    country + " | "@ + tags + match bitrate {
        Some(b) => " ("@ + decimal(b as nat) + " kbps)"@,
        None => seq![],
    }
}

/// The subtitle of the station being played.
pub fn now_playing_subtitle(country: &str, tags: &str, bitrate: Option<u32>) -> (r: String)
    ensures
        r@ == playing_subtitle(country@, tags@, bitrate),
{
    let mut s = String::from_str(country);
    s.append(" | ");
    s.append(tags);
    match bitrate {
        Some(b) => {
            s.append(" (");
            let d = decimal_string(b as u64);
            s.append(d.as_str());
            s.append(" kbps)");
        },
        None => {},
    }
    s
}

/// The stream bitrate in kbit/s, from bit/s.
pub fn kbps_text(bits_per_second: u32) -> (r: String)
    ensures
        r@ == decimal((bits_per_second / 1000) as nat) + " kbps"@,
{
    let mut s = decimal_string((bits_per_second / 1000) as u64);
    s.append(" kbps");
    s
}

/// The custom tag that a listed tag becomes: its trimmed name, lowercased.
pub fn custom_tag_name(name: &str) -> (r: String)
    ensures
        r@ == lowercase_of(trim(name@)),
        is_ascii_text(name@) ==> r@ == ascii_lower(trim(name@)),
{
    let t = trim_chars(&chars_of(name));
    proof {
        if is_ascii_text(name@) {
            lemma_trim_keeps_ascii(name@);
        }
    }
    let ts = string_from_chars(&t);
    to_lowercase(ts.as_str())
}

// ---------------------------------------------------------------------------
// Laws
// ---------------------------------------------------------------------------
/// The number that a text of decimal digits stands for.
pub open spec fn digits_value(s: Seq<char>) -> nat
    decreases s.len(),
{
    if s.len() == 0 {
        0
    } else {
        digits_value(s.drop_last()) * 10 + ((s.last() as u32) - 0x30) as nat
    }
}

/// All characters of `s` are decimal digits.
pub open spec fn all_digits(s: Seq<char>) -> bool {
    forall|i: int| 0 <= i < s.len() ==> '0' <= #[trigger] s[i] <= '9'
}

/// The decimal text of a number has only digits and reads back as the number.
pub proof fn lemma_decimal_value(n: nat)
    ensures
        digits_value(decimal(n)) == n,
        all_digits(decimal(n)),
        decimal(n).len() >= 1,
    decreases n,
{
    if n >= 10 {
        lemma_decimal_value(n / 10);
        let d = decimal(n);
        assert(d.drop_last() =~= decimal(n / 10));
        assert(d.last() == digit_char(n % 10));
        assert((digit_char(n % 10) as u32) == 0x30 + n % 10);
        assert((n / 10) * 10 + n % 10 == n) by (nonlinear_arith);
        assert(d.len() > 0);
        assert(digits_value(d) == digits_value(d.drop_last()) * 10 + ((d.last() as u32) - 0x30) as nat);
        assert forall|i: int| 0 <= i < d.len() implies '0' <= #[trigger] d[i] <= '9' by {
            if i < d.len() - 1 {
                assert(d[i] == decimal(n / 10)[i]);
            }
        }
    } else {
        let d = decimal(n);
        assert(d.drop_last() =~= Seq::<char>::empty());
        assert(d.last() == digit_char(n));
        assert((digit_char(n) as u32) == 0x30 + n);
        assert(digits_value(d.drop_last()) == 0);
        assert(digits_value(d) == digits_value(d.drop_last()) * 10 + ((d.last() as u32) - 0x30) as nat);
    }
}

proof fn lemma_two_digits_value(n: nat)
    ensures
        digits_value(two_digits(n)) == n,
        all_digits(two_digits(n)),
        two_digits(n).len() >= 2,
{
    lemma_decimal_value(n);
    if n < 10 {
        let t = two_digits(n);
        assert(t.drop_last() =~= seq!['0']);
        let z = seq!['0'];
        assert(z.drop_last() =~= Seq::<char>::empty());
        assert(z.last() == '0');
        assert(digits_value(z.drop_last()) == 0);
        assert(digits_value(z) == digits_value(z.drop_last()) * 10 + ((z.last() as u32) - 0x30) as nat);
        assert(digits_value(t) == digits_value(t.drop_last()) * 10 + ((t.last() as u32) - 0x30) as nat);
        assert(t.last() == digit_char(n));
        assert((digit_char(n) as u32) == 0x30 + n);
    } else {
        lemma_decimal_value(n / 10);
    }
}

/// The playback time reads back: the text is minutes, a colon and seconds,
/// each of at least two digits, the seconds below 60, and minutes times 60
/// plus seconds is the time shown.
pub proof fn lemma_clock_text_reads_back(total_secs: nat)
    ensures
        ({
            let m = two_digits(total_secs / 60);
            let s = two_digits(total_secs % 60);
            &&& clock_text(total_secs) == m + seq![':'] + s
            &&& all_digits(m) && all_digits(s)
            &&& m.len() >= 2 && s.len() == 2
            &&& digits_value(s) < 60
            &&& digits_value(m) * 60 + digits_value(s) == total_secs
        }),
{
    lemma_two_digits_value(total_secs / 60);
    lemma_two_digits_value(total_secs % 60);
    let s = total_secs % 60;
    if s >= 10 {
        assert(decimal(s / 10).len() == 1);
    }
}

proof fn lemma_ascii_char_cases(c: char)
    ensures
        ascii_lower_char(ascii_lower_char(c)) == ascii_lower_char(c),
        ascii_lower_char(ascii_upper_char(c)) == ascii_lower_char(c),
        (c as u32) < 0x80 ==> (ascii_lower_char(c) as u32) < 0x80,
        (c as u32) < 0x80 ==> (ascii_upper_char(c) as u32) < 0x80,
{
    let u = c as u32;
    if 'A' <= c <= 'Z' {
        char_u32_cast(ascii_lower_char(c), (u + 0x20) as u32);
    }
    if 'a' <= c <= 'z' {
        char_u32_cast(ascii_upper_char(c), (u - 0x20) as u32);
    }
}

/// Case does not matter to the icon of an ASCII tag: lowercasing or
/// uppercasing the tag first chooses the same icon, because the ASCII
/// lowercase of either is the ASCII lowercase of the tag.
pub proof fn lemma_icon_ignores_ascii_case(t: Seq<char>)
    requires
        is_ascii_text(t),
    ensures
        is_ascii_text(ascii_lower(t)),
        is_ascii_text(ascii_upper(t)),
        ascii_lower(ascii_lower(t)) == ascii_lower(t),
        ascii_lower(ascii_upper(t)) == ascii_lower(t),
        icon_for(ascii_lower(ascii_lower(t))) == icon_for(ascii_lower(t)),
        icon_for(ascii_lower(ascii_upper(t))) == icon_for(ascii_lower(t)),
{
    assert forall|i: int| 0 <= i < t.len() implies {
        &&& ascii_lower_char(ascii_lower_char(t[i])) == ascii_lower_char(t[i])
        &&& ascii_lower_char(ascii_upper_char(t[i])) == ascii_lower_char(t[i])
        &&& (ascii_lower_char(t[i]) as u32) < 0x80
        &&& (ascii_upper_char(t[i]) as u32) < 0x80
    } by {
        lemma_ascii_char_cases(t[i]);
    }
    assert(ascii_lower(ascii_lower(t)) =~= ascii_lower(t));
    assert(ascii_lower(ascii_upper(t)) =~= ascii_lower(t));
    assert forall|i: int| 0 <= i < ascii_lower(t).len() implies (#[trigger] ascii_lower(t)[i] as u32) < 0x80 by {}
    assert forall|i: int| 0 <= i < ascii_upper(t).len() implies (#[trigger] ascii_upper(t)[i] as u32) < 0x80 by {}
}

/// The flag of a code is made letter by letter: the flag of two pieces of
/// a code is the flag of the first followed by the flag of the second.
pub proof fn lemma_flag_concat(code: Seq<char>, more: Seq<char>)
    ensures
        flag_of(code + more) == flag_of(code) + flag_of(more),
    decreases more.len(),
{
    if more.len() == 0 {
        assert(code + more =~= code);
        assert(flag_of(code) + flag_of(more) =~= flag_of(code));
    } else {
        let whole = code + more;
        assert(whole.drop_last() =~= code + more.drop_last());
        assert(whole.last() == more.last());
        lemma_flag_concat(code, more.drop_last());
        if is_ascii_letter(more.last()) {
            assert(flag_of(code) + flag_of(more) =~= (flag_of(code) + flag_of(more.drop_last())).push(
                regional_indicator_code(more.last()) as char,
            ));
        } else {
            assert(flag_of(code) + flag_of(more) =~= flag_of(code) + flag_of(more.drop_last()));
        }
    }
}

/// The number of ASCII letters in `code`.
pub open spec fn ascii_letter_count(code: Seq<char>) -> nat {
    code.filter(|c: char| ('A' <= c <= 'Z') || ('a' <= c <= 'z')).len()
}

/// A country code's flag has one regional indicator symbol per ASCII letter
/// of the code, in order: `A` or `a` gives U+1F1E6, `B` or `b` the next
/// symbol, and so on to `Z` or `z`, which gives U+1F1FF; any other character
/// gives nothing. So the flag has as many symbols as the code has letters.
pub proof fn lemma_flag_symbols(code: Seq<char>, c: char)
    ensures
        'A' <= c <= 'Z' ==> flag_of(seq![c]) == seq![(0x1F1E6 + ((c as u32) - 0x41)) as char],
        'a' <= c <= 'z' ==> flag_of(seq![c]) == seq![(0x1F1E6 + ((c as u32) - 0x61)) as char],
        !('A' <= c <= 'Z') && !('a' <= c <= 'z') ==> flag_of(seq![c]) == Seq::<char>::empty(),
        flag_of(code).len() == ascii_letter_count(code),
    decreases code.len(),
{
    let one = seq![c];
    assert(one.drop_last() =~= Seq::<char>::empty());
    assert(one.last() == c);
    assert(flag_of(one.drop_last()) =~= Seq::<char>::empty());
    if 'A' <= c <= 'Z' {
        assert(regional_indicator_code(c) == 0x1F1E6 + ((c as u32) - 0x41));
        assert(flag_of(one) =~= seq![(0x1F1E6 + ((c as u32) - 0x41)) as char]);
    }
    if 'a' <= c <= 'z' {
        assert(regional_indicator_code(c) == 0x1F1E6 + ((c as u32) - 0x61));
        assert(flag_of(one) =~= seq![(0x1F1E6 + ((c as u32) - 0x61)) as char]);
    }
    if !('A' <= c <= 'Z') && !('a' <= c <= 'z') {
        assert(flag_of(one) =~= Seq::<char>::empty());
    }
    if code.len() > 0 {
        lemma_flag_symbols(code.drop_last(), c);
        reveal_with_fuel(Seq::filter, 1);
        assert(code.drop_last().push(code.last()) =~= code);
    } else {
        reveal_with_fuel(Seq::filter, 1);
    }
}

/// The flag of a code has one symbol per ASCII letter of the code, and does
/// not depend on the letters' case.
pub proof fn lemma_flag_letters(code: Seq<char>, other: Seq<char>)
    requires
        other.len() == code.len(),
        forall|i: int|
            0 <= i < code.len() ==> (#[trigger] other[i] == code[i] || (is_ascii_letter(code[i])
                && is_ascii_letter(other[i]) && ((other[i] as u32) == (code[i] as u32) + 0x20
                || (code[i] as u32) == (other[i] as u32) + 0x20))),
    ensures
        flag_of(code) == flag_of(other),
        flag_of(code).len() <= code.len(),
    decreases code.len(),
{
    if code.len() > 0 {
        let c = code.last();
        let o = other.last();
        assert(o == other[other.len() - 1] && c == code[code.len() - 1]);
        assert forall|i: int| 0 <= i < code.drop_last().len() implies (#[trigger] other.drop_last()[i]
            == code.drop_last()[i] || (is_ascii_letter(code.drop_last()[i]) && is_ascii_letter(
            other.drop_last()[i],
        ) && ((other.drop_last()[i] as u32) == (code.drop_last()[i] as u32) + 0x20 || (
        code.drop_last()[i] as u32) == (other.drop_last()[i] as u32) + 0x20))) by {
            assert(other.drop_last()[i] == other[i] && code.drop_last()[i] == code[i]);
        }
        lemma_flag_letters(code.drop_last(), other.drop_last());
        if is_ascii_letter(c) {
            assert(regional_indicator_code(c) == regional_indicator_code(o));
        }
    }
}

} // verus!
