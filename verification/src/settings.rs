//! Preferences of the player and the names under which they are saved and shown.
use vstd::prelude::*;

use crate::api::BitrateFilterSetting;
use crate::text::{chars_eq, chars_of};

verus! {

// ---------------------------------------------------------------------------
// Bitrate filter
// ---------------------------------------------------------------------------
/// The name under which a bitrate filter is saved.
pub open spec fn bitrate_name(b: BitrateFilterSetting) -> Seq<char> {
    match b {
        BitrateFilterSetting::Any => "None"@,
        BitrateFilterSetting::Low => "Low"@,
        BitrateFilterSetting::High => "High"@,
        BitrateFilterSetting::Flac => "Flac"@,
    }
}

/// The bitrate filter of a saved name; an unknown name means no filter.
pub open spec fn bitrate_of_name(s: Seq<char>) -> BitrateFilterSetting {
    if s == "Low"@ {
        BitrateFilterSetting::Low
    } else if s == "High"@ {
        BitrateFilterSetting::High
    } else if s == "Flac"@ {
        BitrateFilterSetting::Flac
    } else {
        BitrateFilterSetting::Any
    }
}

/// The label of the bitrate filter menu.
pub open spec fn bitrate_label_of(b: BitrateFilterSetting) -> Seq<char> {
    match b {
        BitrateFilterSetting::Any => "\u{229F} Bitrate"@,
        BitrateFilterSetting::Low => "\u{229F} Low \u{2264}160"@,
        BitrateFilterSetting::High => "\u{229F} High \u{2265}192"@,
        BitrateFilterSetting::Flac => "\u{229F} FLAC"@,
    }
}

pub(crate) fn str_is(s: &str, lit: &str) -> (r: bool)
    ensures
        r == (s@ == lit@),
{
    chars_eq(&chars_of(s), &chars_of(lit))
}

/// The saved name of a bitrate filter.
pub fn bitrate_setting_name(b: BitrateFilterSetting) -> (r: &'static str)
    ensures
        r@ == bitrate_name(b),
{
    match b {
        BitrateFilterSetting::Any => "None",
        BitrateFilterSetting::Low => "Low",
        BitrateFilterSetting::High => "High",
        BitrateFilterSetting::Flac => "Flac",
    }
}

/// The bitrate filter of a saved name.
pub fn bitrate_setting_from_name(s: &str) -> (r: BitrateFilterSetting)
    ensures
        r == bitrate_of_name(s@),
{
    if str_is(s, "Low") {
        BitrateFilterSetting::Low
    } else if str_is(s, "High") {
        BitrateFilterSetting::High
    } else if str_is(s, "Flac") {
        BitrateFilterSetting::Flac
    } else {
        BitrateFilterSetting::Any
    }
}

/// The label of the bitrate filter menu for a filter.
pub fn bitrate_label(b: BitrateFilterSetting) -> (r: &'static str)
    ensures
        r@ == bitrate_label_of(b),
{
    match b {
        BitrateFilterSetting::Any => "\u{229F} Bitrate",
        BitrateFilterSetting::Low => "\u{229F} Low \u{2264}160",
        BitrateFilterSetting::High => "\u{229F} High \u{2265}192",
        BitrateFilterSetting::Flac => "\u{229F} FLAC",
    }
}

/// The bitrate filter that a saved file without one starts with: `None`.
pub fn default_bitrate_str() -> (r: String)
    ensures
        r@ == bitrate_name(BitrateFilterSetting::Any),
{
    String::from_str("None")
}

/// A bitrate filter is saved under a name that reads back as the same filter.
pub proof fn lemma_bitrate_name_roundtrip(b: BitrateFilterSetting)
    ensures
        bitrate_of_name(bitrate_name(b)) == b,
{
    reveal_strlit("None");
    reveal_strlit("Low");
    reveal_strlit("High");
    reveal_strlit("Flac");
    assert("None"@.len() != "Low"@.len());
    assert("None"@[0] != "High"@[0]);
    assert("None"@[0] != "Flac"@[0]);
    assert("High"@.len() != "Low"@.len());
    assert("Flac"@.len() != "Low"@.len());
    assert("Flac"@[0] != "High"@[0]);
}

// ---------------------------------------------------------------------------
// Level analyzer
// ---------------------------------------------------------------------------
/// How the level analyzer is drawn.
#[derive(Clone, Copy, PartialEq, Eq, Structural, Debug)]
pub enum AnalyzerType {
    Bars,
    Wave,
    BlocksWithHold,
    DigitalVuBlocks,
}

/// The position of an analyzer style in the preferences list.
pub open spec fn analyzer_position(a: AnalyzerType) -> u32 {
    match a {
        AnalyzerType::Bars => 0,
        AnalyzerType::Wave => 1,
        AnalyzerType::BlocksWithHold => 2,
        AnalyzerType::DigitalVuBlocks => 3,
    }
}

/// The analyzer style at a position of the preferences list; positions past
/// the list choose the last style.
pub open spec fn analyzer_at(i: u32) -> AnalyzerType {
    if i == 0 {
        AnalyzerType::Bars
    } else if i == 1 {
        AnalyzerType::Wave
    } else if i == 2 {
        AnalyzerType::BlocksWithHold
    } else {
        AnalyzerType::DigitalVuBlocks
    }
}

/// The position of an analyzer style in the preferences list.
pub fn analyzer_index(a: AnalyzerType) -> (r: u32)
    ensures
        r == analyzer_position(a),
{
    match a {
        AnalyzerType::Bars => 0,
        AnalyzerType::Wave => 1,
        AnalyzerType::BlocksWithHold => 2,
        AnalyzerType::DigitalVuBlocks => 3,
    }
}

/// The analyzer style chosen at a position of the preferences list.
pub fn analyzer_from_index(i: u32) -> (r: AnalyzerType)
    ensures
        r == analyzer_at(i),
{
    match i {
        0 => AnalyzerType::Bars,
        1 => AnalyzerType::Wave,
        2 => AnalyzerType::BlocksWithHold,
        _ => AnalyzerType::DigitalVuBlocks,
    }
}

/// Choosing the listed position of a style chooses that style again.
pub proof fn lemma_analyzer_index_roundtrip(a: AnalyzerType)
    ensures
        analyzer_at(analyzer_position(a)) == a,
        analyzer_position(a) < 4,
{
}

// ---------------------------------------------------------------------------
// Audio output
// ---------------------------------------------------------------------------
/// The audio sink elements offered in the preferences, in list order.
pub open spec fn sink_ids() -> Seq<Seq<char>> {
    seq![
        "autoaudiosink"@,
        "pulsesink"@,
        "pipewiresink"@,
        "alsasink"@,
        "jackaudiosink"@,
        "osssink"@,
    ]
}

/// The list position of a sink, or the first position for an unknown sink.
pub open spec fn sink_position(id: Seq<char>) -> u32 {
    if id == sink_ids()[0] {
        0
    } else if id == sink_ids()[1] {
        1
    } else if id == sink_ids()[2] {
        2
    } else if id == sink_ids()[3] {
        3
    } else if id == sink_ids()[4] {
        4
    } else if id == sink_ids()[5] {
        5
    } else {
        0
    }
}

/// The audio sink that a saved file without one starts with.
pub fn default_audio_sink() -> (r: String)
    ensures
        r@ == sink_ids()[0],
{
    String::from_str("autoaudiosink")
}

/// The list position shown for the chosen audio sink.
pub fn sink_index(id: &str) -> (r: u32)
    ensures
        r == sink_position(id@),
{
    if str_is(id, "autoaudiosink") {
        0
    } else if str_is(id, "pulsesink") {
        1
    } else if str_is(id, "pipewiresink") {
        2
    } else if str_is(id, "alsasink") {
        3
    } else if str_is(id, "jackaudiosink") {
        4
    } else if str_is(id, "osssink") {
        5
    } else {
        0
    }
}

/// The sink element at a list position, if the list has one there.
pub fn sink_at(i: u32) -> (r: Option<&'static str>)
    ensures
        match r {
            Some(s) => i < 6 && s@ == sink_ids()[i as int],
            None => i >= 6,
        },
{
    match i {
        0 => Some("autoaudiosink"),
        1 => Some("pulsesink"),
        2 => Some("pipewiresink"),
        3 => Some("alsasink"),
        4 => Some("jackaudiosink"),
        5 => Some("osssink"),
        _ => None,
    }
}

/// The position shown for a sink chooses that sink again; an unknown sink
/// shows the first position.
pub proof fn lemma_sink_index_roundtrip(id: Seq<char>)
    ensures
        sink_position(id) < 6,
        sink_ids().contains(id) ==> sink_ids()[sink_position(id) as int] == id,
        !sink_ids().contains(id) ==> sink_position(id) == 0,
{
    reveal_strlit("autoaudiosink");
    reveal_strlit("pulsesink");
    reveal_strlit("pipewiresink");
    reveal_strlit("alsasink");
    reveal_strlit("jackaudiosink");
    reveal_strlit("osssink");
    if sink_ids().contains(id) {
        let k = choose|k: int| 0 <= k < sink_ids().len() && sink_ids()[k] == id;
        assert(sink_ids()[k] == id);
    }
}

// ---------------------------------------------------------------------------
// Preferences
// ---------------------------------------------------------------------------
/// The preferences of the player.
pub struct AppPreferences {
    pub prefer_high_bitrate: bool,
    pub hide_broken: bool,
    pub auto_update: bool,
    pub analyzer_type: AnalyzerType,
    pub custom_tags: Vec<String>,
    pub audio_sink: String,
}

/// The custom tags as character sequences.
pub open spec fn tag_views(tags: Seq<String>) -> Seq<Seq<char>> {
    tags.map_values(|t: String| t@)
}

impl AppPreferences {
    /// The preferences a session starts with, given the saved custom tags and
    /// audio sink.
    pub fn new(custom_tags: Vec<String>, audio_sink: String) -> (r: AppPreferences)
        ensures
            r.prefer_high_bitrate,
            r.hide_broken,
            r.auto_update,
            r.analyzer_type == AnalyzerType::BlocksWithHold,
            r.custom_tags@ == custom_tags@,
            r.audio_sink@ == audio_sink@,
    {
        AppPreferences {
            prefer_high_bitrate: true,
            hide_broken: true,
            auto_update: true,
            analyzer_type: AnalyzerType::BlocksWithHold,
            custom_tags,
            audio_sink,
        }
    }

    /// Whether a tag is among the custom tags.
    pub fn has_custom_tag(&self, tag: &str) -> (r: bool)
        ensures
            r == tag_views(self.custom_tags@).contains(tag@),
    {
        let t = chars_of(tag);
        for i in 0..self.custom_tags.len()
            invariant
                t@ == tag@,
                forall|j: int| 0 <= j < i ==> self.custom_tags@[j]@ != tag@,
        {
            if chars_eq(&chars_of(self.custom_tags[i].as_str()), &t) {
                proof {
                    assert(tag_views(self.custom_tags@)[i as int] == tag@);
                }
                return true;
            }
        }
        proof {
            assert forall|j: int| 0 <= j < tag_views(self.custom_tags@).len() implies tag_views(
                self.custom_tags@,
            )[j] != tag@ by {
                assert(self.custom_tags@[j]@ != tag@);
            }
        }
        false
    }

    /// Adds a custom tag unless it is there already; tells whether it was added.
    pub fn add_custom_tag(&mut self, tag: String) -> (r: bool)
        ensures
            r == !tag_views(old(self).custom_tags@).contains(tag@),
            r ==> tag_views(final(self).custom_tags@) == tag_views(old(self).custom_tags@).push(tag@),
            !r ==> final(self).custom_tags@ == old(self).custom_tags@,
            final(self).prefer_high_bitrate == old(self).prefer_high_bitrate,
            final(self).hide_broken == old(self).hide_broken,
            final(self).auto_update == old(self).auto_update,
            final(self).analyzer_type == old(self).analyzer_type,
            final(self).audio_sink == old(self).audio_sink,
    {
        if self.has_custom_tag(tag.as_str()) {
            return false;
        }
        let ghost before = tag_views(self.custom_tags@);
        let ghost tv = tag@;
        self.custom_tags.push(tag);
        proof {
            assert(tag_views(self.custom_tags@) =~= before.push(tv));
        }
        true
    }

    /// Removes every copy of a custom tag.
    pub fn remove_custom_tag(&mut self, tag: &str)
        ensures
            tag_views(final(self).custom_tags@) == tag_views(old(self).custom_tags@).filter(
                |t: Seq<char>| t != tag@,
            ),
            final(self).prefer_high_bitrate == old(self).prefer_high_bitrate,
            final(self).hide_broken == old(self).hide_broken,
            final(self).auto_update == old(self).auto_update,
            final(self).analyzer_type == old(self).analyzer_type,
            final(self).audio_sink == old(self).audio_sink,
    {
        let ghost all = tag_views(self.custom_tags@);
        let t = chars_of(tag);
        let mut kept: Vec<String> = Vec::new();
        let n = self.custom_tags.len();
        proof {
            assert(all.subrange(0, 0) =~= Seq::<Seq<char>>::empty());
            assert(all.subrange(0, 0).filter(|x: Seq<char>| x != tag@) =~= Seq::<Seq<char>>::empty());
        }
        for i in 0..n
            invariant
                n == self.custom_tags.len(),
                t@ == tag@,
                all == tag_views(self.custom_tags@),
                tag_views(kept@) == all.subrange(0, i as int).filter(|x: Seq<char>| x != tag@),
        {
            proof {
                assert(all.subrange(0, i + 1).drop_last() =~= all.subrange(0, i as int));
                reveal_with_fuel(Seq::filter, 1);
            }
            if !chars_eq(&chars_of(self.custom_tags[i].as_str()), &t) {
                let ghost before = tag_views(kept@);
                kept.push(self.custom_tags[i].clone());
                proof {
                    assert(tag_views(kept@) =~= before.push(all[i as int]));
                }
            }
        }
        proof {
            assert(all.subrange(0, n as int) =~= all);
        }
        self.custom_tags = kept;
    }
}

} // verus!
