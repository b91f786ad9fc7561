//! The typed sections of a document and their field tables.
//!
//! Each populated type lists its fields in declaration order; `from_tuples`
//! reads them by their textual key (the underscore-delimited words of the
//! field name, each capitalized and concatenated) and `from_vec` by position.
//! A missing key or a failed conversion yields the field's default.

use vstd::prelude::*;

use crate::convert::decimal_zero;
use crate::convert::spec_decimal_zero;
use crate::convert::Decimal;
use crate::convert::Mode;
use crate::fields::fld_bool;
use crate::fields::fld_dec;
use crate::fields::fld_str;
use crate::fields::fld_u32;
use crate::fields::fld_u8;
use crate::fields::get_bool;
use crate::fields::get_dec;
use crate::fields::get_mode;
use crate::fields::get_str;
use crate::fields::get_str_list;
use crate::fields::get_u32;
use crate::fields::get_u32_list;
use crate::fields::spec_bool_at;
use crate::fields::spec_bool_field;
use crate::fields::spec_dec_at;
use crate::fields::spec_dec_field;
use crate::fields::spec_mode_field;
use crate::fields::spec_str_at;
use crate::fields::spec_str_field;
use crate::fields::spec_str_list_field;
use crate::fields::spec_u32_at;
use crate::fields::spec_u32_field;
use crate::fields::spec_u32_list_field;
use crate::fields::spec_u8_at;
use crate::traits::StructMap;

verus! {

/// The General section: audio and presentation switches.
#[derive(Debug, Clone, PartialEq)]
pub struct General {
    pub audio_filename: String,
    pub audio_lead_in: u32,
    pub preview_time: u32,
    pub countdown: bool,
    pub sample_set: String,
    pub stack_leniency: Decimal,
    pub mode: Mode,
    pub letterbox_in_breaks: bool,
    pub widescreen_storyboard: bool,
}

/// Mathematical view of [`General`].
pub struct GeneralView {
    pub audio_filename: Seq<char>,
    pub audio_lead_in: u32,
    pub preview_time: u32,
    pub countdown: bool,
    pub sample_set: Seq<char>,
    pub stack_leniency: Decimal,
    pub mode: Mode,
    pub letterbox_in_breaks: bool,
    pub widescreen_storyboard: bool,
}

impl View for General {
    type V = GeneralView;

    open spec fn view(&self) -> GeneralView {
        GeneralView {
            audio_filename: self.audio_filename@,
            audio_lead_in: self.audio_lead_in,
            preview_time: self.preview_time,
            countdown: self.countdown,
            sample_set: self.sample_set@,
            stack_leniency: self.stack_leniency,
            mode: self.mode,
            letterbox_in_breaks: self.letterbox_in_breaks,
            widescreen_storyboard: self.widescreen_storyboard,
        }
    }
}

/// The General section with every field at its default.
pub open spec fn spec_general_default() -> GeneralView {
    GeneralView {
        audio_filename: seq![],
        audio_lead_in: 0,
        preview_time: 0,
        countdown: false,
        sample_set: seq![],
        stack_leniency: spec_decimal_zero(),
        mode: Mode::Wrong,
        letterbox_in_breaks: false,
        widescreen_storyboard: false,
    }
}

/// The General section read from key/value pairs.
pub open spec fn spec_general_of(pairs: Seq<(Seq<char>, Seq<char>)>) -> GeneralView {
    GeneralView {
        audio_filename: spec_str_field(pairs, "AudioFilename"@),
        audio_lead_in: spec_u32_field(pairs, "AudioLeadIn"@),
        preview_time: spec_u32_field(pairs, "PreviewTime"@),
        countdown: spec_bool_field(pairs, "Countdown"@),
        sample_set: spec_str_field(pairs, "SampleSet"@),
        stack_leniency: spec_dec_field(pairs, "StackLeniency"@),
        mode: spec_mode_field(pairs, "Mode"@),
        letterbox_in_breaks: spec_bool_field(pairs, "LetterboxInBreaks"@),
        widescreen_storyboard: spec_bool_field(pairs, "WidescreenStoryboard"@),
    }
}

/// The General section read from a positional record of at least nine fields.
pub open spec fn spec_general_from_fields(fs: Seq<Seq<char>>) -> Option<GeneralView> {
    if fs.len() < 9 {
        None
    } else {
        Some(
            GeneralView {
                audio_filename: spec_str_at(fs, 0),
                audio_lead_in: spec_u32_at(fs, 1),
                preview_time: spec_u32_at(fs, 2),
                countdown: spec_bool_at(fs, 3),
                sample_set: spec_str_at(fs, 4),
                stack_leniency: spec_dec_at(fs, 5),
                mode: crate::convert::spec_mode_of(spec_str_at(fs, 6)),
                letterbox_in_breaks: spec_bool_at(fs, 7),
                widescreen_storyboard: spec_bool_at(fs, 8),
            },
        )
    }
}

impl Default for General {
    fn default() -> (r: General)
        ensures
            r@ == spec_general_default(),
    {
        General {
            audio_filename: String::new(),
            audio_lead_in: 0,
            preview_time: 0,
            countdown: false,
            sample_set: String::new(),
            stack_leniency: decimal_zero(),
            mode: Mode::Wrong,
            letterbox_in_breaks: false,
            widescreen_storyboard: false,
        }
    }
}

impl StructMap for General {
    fn from_tuples(pairs: &Vec<(String, String)>) -> (r: General)
        ensures
            r@ == spec_general_of(pairs.deep_view()),
    {
        General {
            audio_filename: get_str(pairs, "AudioFilename"),
            audio_lead_in: get_u32(pairs, "AudioLeadIn"),
            preview_time: get_u32(pairs, "PreviewTime"),
            countdown: get_bool(pairs, "Countdown"),
            sample_set: get_str(pairs, "SampleSet"),
            stack_leniency: get_dec(pairs, "StackLeniency"),
            mode: get_mode(pairs, "Mode"),
            letterbox_in_breaks: get_bool(pairs, "LetterboxInBreaks"),
            widescreen_storyboard: get_bool(pairs, "WidescreenStoryboard"),
        }
    }

    fn from_vec(fields: &Vec<String>) -> (r: Option<General>)
        ensures
            match r {
                Some(g) => spec_general_from_fields(fields.deep_view()) == Some(g@),
                None => spec_general_from_fields(fields.deep_view()) is None,
            },
    {
        if fields.len() < 9 {
            return None;
        }
        let mode_tok = fld_str(fields, 6);
        Some(
            General {
                audio_filename: fld_str(fields, 0),
                audio_lead_in: fld_u32(fields, 1),
                preview_time: fld_u32(fields, 2),
                countdown: fld_bool(fields, 3),
                sample_set: fld_str(fields, 4),
                stack_leniency: fld_dec(fields, 5),
                mode: crate::convert::mode_of(mode_tok.as_str()),
                letterbox_in_breaks: fld_bool(fields, 7),
                widescreen_storyboard: fld_bool(fields, 8),
            },
        )
    }
}

/// The Editor section: editing aids.
#[derive(Debug, Clone, PartialEq)]
pub struct Editor {
    pub bookmarks: Vec<u32>,
    pub distance_spacing: Decimal,
    pub beat_divisor: u32,
    pub grid_size: u32,
    pub timeline_zoom: Decimal,
}

/// Mathematical view of [`Editor`].
pub struct EditorView {
    pub bookmarks: Seq<u32>,
    pub distance_spacing: Decimal,
    pub beat_divisor: u32,
    pub grid_size: u32,
    pub timeline_zoom: Decimal,
}

impl View for Editor {
    type V = EditorView;

    open spec fn view(&self) -> EditorView {
        EditorView {
            bookmarks: self.bookmarks@,
            distance_spacing: self.distance_spacing,
            beat_divisor: self.beat_divisor,
            grid_size: self.grid_size,
            timeline_zoom: self.timeline_zoom,
        }
    }
}

/// The Editor section with every field at its default.
pub open spec fn spec_editor_default() -> EditorView {
    EditorView {
        bookmarks: seq![],
        distance_spacing: spec_decimal_zero(),
        beat_divisor: 0,
        grid_size: 0,
        timeline_zoom: spec_decimal_zero(),
    }
}

/// The Editor section read from key/value pairs.
pub open spec fn spec_editor_of(pairs: Seq<(Seq<char>, Seq<char>)>) -> EditorView {
    EditorView {
        bookmarks: spec_u32_list_field(pairs, "Bookmarks"@),
        distance_spacing: spec_dec_field(pairs, "DistanceSpacing"@),
        beat_divisor: spec_u32_field(pairs, "BeatDivisor"@),
        grid_size: spec_u32_field(pairs, "GridSize"@),
        timeline_zoom: spec_dec_field(pairs, "TimelineZoom"@),
    }
}

/// The Editor section read from a positional record of at least five fields.
pub open spec fn spec_editor_from_fields(fs: Seq<Seq<char>>) -> Option<EditorView> {
    if fs.len() < 5 {
        None
    } else {
        Some(
            EditorView {
                bookmarks: crate::convert::spec_u32_list(spec_str_at(fs, 0)),
                distance_spacing: spec_dec_at(fs, 1),
                beat_divisor: spec_u32_at(fs, 2),
                grid_size: spec_u32_at(fs, 3),
                timeline_zoom: spec_dec_at(fs, 4),
            },
        )
    }
}

impl Default for Editor {
    fn default() -> (r: Editor)
        ensures
            r@ == spec_editor_default(),
    {
        Editor {
            bookmarks: Vec::new(),
            distance_spacing: decimal_zero(),
            beat_divisor: 0,
            grid_size: 0,
            timeline_zoom: decimal_zero(),
        }
    }
}

impl StructMap for Editor {
    fn from_tuples(pairs: &Vec<(String, String)>) -> (r: Editor)
        ensures
            r@ == spec_editor_of(pairs.deep_view()),
    {
        Editor {
            bookmarks: get_u32_list(pairs, "Bookmarks"),
            distance_spacing: get_dec(pairs, "DistanceSpacing"),
            beat_divisor: get_u32(pairs, "BeatDivisor"),
            grid_size: get_u32(pairs, "GridSize"),
            timeline_zoom: get_dec(pairs, "TimelineZoom"),
        }
    }

    fn from_vec(fields: &Vec<String>) -> (r: Option<Editor>)
        ensures
            match r {
                Some(e) => spec_editor_from_fields(fields.deep_view()) == Some(e@),
                None => spec_editor_from_fields(fields.deep_view()) is None,
            },
    {
        if fields.len() < 5 {
            return None;
        }
        let marks_tok = fld_str(fields, 0);
        Some(
            Editor {
                bookmarks: crate::convert::parse_u32_list(marks_tok.as_str()),
                distance_spacing: fld_dec(fields, 1),
                beat_divisor: fld_u32(fields, 2),
                grid_size: fld_u32(fields, 3),
                timeline_zoom: fld_dec(fields, 4),
            },
        )
    }
}

/// The Metadata section: naming and identification.
#[allow(non_snake_case)]
#[derive(Debug, Clone, PartialEq)]
pub struct Metadata {
    pub title: String,
    pub title_unicode: String,
    pub artist: String,
    pub artist_unicode: String,
    pub creator: String,
    pub version: String,
    pub source: String,
    pub tags: Vec<String>,
    pub beatmap_ID: u32,
    pub beatmap_set_ID: u32,
}

/// Mathematical view of [`Metadata`].
#[allow(non_snake_case)]
pub struct MetadataView {
    pub title: Seq<char>,
    pub title_unicode: Seq<char>,
    pub artist: Seq<char>,
    pub artist_unicode: Seq<char>,
    pub creator: Seq<char>,
    pub version: Seq<char>,
    pub source: Seq<char>,
    pub tags: Seq<Seq<char>>,
    pub beatmap_ID: u32,
    pub beatmap_set_ID: u32,
}

impl View for Metadata {
    type V = MetadataView;

    open spec fn view(&self) -> MetadataView {
        MetadataView {
            title: self.title@,
            title_unicode: self.title_unicode@,
            artist: self.artist@,
            artist_unicode: self.artist_unicode@,
            creator: self.creator@,
            version: self.version@,
            source: self.source@,
            tags: self.tags.deep_view(),
            beatmap_ID: self.beatmap_ID,
            beatmap_set_ID: self.beatmap_set_ID,
        }
    }
}

/// The Metadata section with every field at its default.
pub open spec fn spec_metadata_default() -> MetadataView {
    MetadataView {
        title: seq![],
        title_unicode: seq![],
        artist: seq![],
        artist_unicode: seq![],
        creator: seq![],
        version: seq![],
        source: seq![],
        tags: seq![],
        beatmap_ID: 0,
        beatmap_set_ID: 0,
    }
}

/// The Metadata section read from key/value pairs.
pub open spec fn spec_metadata_of(pairs: Seq<(Seq<char>, Seq<char>)>) -> MetadataView {
    MetadataView {
        title: spec_str_field(pairs, "Title"@),
        title_unicode: spec_str_field(pairs, "TitleUnicode"@),
        artist: spec_str_field(pairs, "Artist"@),
        artist_unicode: spec_str_field(pairs, "ArtistUnicode"@),
        creator: spec_str_field(pairs, "Creator"@),
        version: spec_str_field(pairs, "Version"@),
        source: spec_str_field(pairs, "Source"@),
        tags: spec_str_list_field(pairs, "Tags"@),
        beatmap_ID: spec_u32_field(pairs, "BeatmapID"@),
        beatmap_set_ID: spec_u32_field(pairs, "BeatmapSetID"@),
    }
}

/// The Metadata section read from a positional record of at least ten fields.
pub open spec fn spec_metadata_from_fields(fs: Seq<Seq<char>>) -> Option<MetadataView> {
    if fs.len() < 10 {
        None
    } else {
        Some(
            MetadataView {
                title: spec_str_at(fs, 0),
                title_unicode: spec_str_at(fs, 1),
                artist: spec_str_at(fs, 2),
                artist_unicode: spec_str_at(fs, 3),
                creator: spec_str_at(fs, 4),
                version: spec_str_at(fs, 5),
                source: spec_str_at(fs, 6),
                tags: crate::convert::spec_ws_tokens(spec_str_at(fs, 7)),
                beatmap_ID: spec_u32_at(fs, 8),
                beatmap_set_ID: spec_u32_at(fs, 9),
            },
        )
    }
}

impl Default for Metadata {
    fn default() -> (r: Metadata)
        ensures
            r@ == spec_metadata_default(),
    {
        let r = Metadata {
            title: String::new(),
            title_unicode: String::new(),
            artist: String::new(),
            artist_unicode: String::new(),
            creator: String::new(),
            version: String::new(),
            source: String::new(),
            tags: Vec::new(),
            beatmap_ID: 0,
            beatmap_set_ID: 0,
        };
        proof {
            assert(r.tags.deep_view() =~= Seq::<Seq<char>>::empty());
        }
        r
    }
}

impl StructMap for Metadata {
    fn from_tuples(pairs: &Vec<(String, String)>) -> (r: Metadata)
        ensures
            r@ == spec_metadata_of(pairs.deep_view()),
    {
        Metadata {
            title: get_str(pairs, "Title"),
            title_unicode: get_str(pairs, "TitleUnicode"),
            artist: get_str(pairs, "Artist"),
            artist_unicode: get_str(pairs, "ArtistUnicode"),
            creator: get_str(pairs, "Creator"),
            version: get_str(pairs, "Version"),
            source: get_str(pairs, "Source"),
            tags: get_str_list(pairs, "Tags"),
            beatmap_ID: get_u32(pairs, "BeatmapID"),
            beatmap_set_ID: get_u32(pairs, "BeatmapSetID"),
        }
    }

    fn from_vec(fields: &Vec<String>) -> (r: Option<Metadata>)
        ensures
            match r {
                Some(m) => spec_metadata_from_fields(fields.deep_view()) == Some(m@),
                None => spec_metadata_from_fields(fields.deep_view()) is None,
            },
    {
        if fields.len() < 10 {
            return None;
        }
        let tags_tok = fld_str(fields, 7);
        Some(
            Metadata {
                title: fld_str(fields, 0),
                title_unicode: fld_str(fields, 1),
                artist: fld_str(fields, 2),
                artist_unicode: fld_str(fields, 3),
                creator: fld_str(fields, 4),
                version: fld_str(fields, 5),
                source: fld_str(fields, 6),
                tags: crate::convert::parse_ws_tokens(tags_tok.as_str()),
                beatmap_ID: fld_u32(fields, 8),
                beatmap_set_ID: fld_u32(fields, 9),
            },
        )
    }
}

/// The Difficulty section: six gameplay ratios.
#[derive(Debug, Clone, Copy, PartialEq, Eq)]
pub struct Difficulty {
    pub hp_drain_rate: Decimal,
    pub circle_size: Decimal,
    pub overall_difficulty: Decimal,
    pub approach_rate: Decimal,
    pub slider_multiplier: Decimal,
    pub slider_tickrate: Decimal,
}

/// The Difficulty section with every field at its default.
pub open spec fn spec_difficulty_default() -> Difficulty {
    Difficulty {
        hp_drain_rate: spec_decimal_zero(),
        circle_size: spec_decimal_zero(),
        overall_difficulty: spec_decimal_zero(),
        approach_rate: spec_decimal_zero(),
        slider_multiplier: spec_decimal_zero(),
        slider_tickrate: spec_decimal_zero(),
    }
}

/// The Difficulty section read from key/value pairs.
pub open spec fn spec_difficulty_of(pairs: Seq<(Seq<char>, Seq<char>)>) -> Difficulty {
    Difficulty {
        hp_drain_rate: spec_dec_field(pairs, "HpDrainRate"@),
        circle_size: spec_dec_field(pairs, "CircleSize"@),
        overall_difficulty: spec_dec_field(pairs, "OverallDifficulty"@),
        approach_rate: spec_dec_field(pairs, "ApproachRate"@),
        slider_multiplier: spec_dec_field(pairs, "SliderMultiplier"@),
        slider_tickrate: spec_dec_field(pairs, "SliderTickrate"@),
    }
}

/// The Difficulty section read from a positional record of at least six
/// fields.
pub open spec fn spec_difficulty_from_fields(fs: Seq<Seq<char>>) -> Option<Difficulty> {
    if fs.len() < 6 {
        None
    } else {
        Some(
            Difficulty {
                hp_drain_rate: spec_dec_at(fs, 0),
                circle_size: spec_dec_at(fs, 1),
                overall_difficulty: spec_dec_at(fs, 2),
                approach_rate: spec_dec_at(fs, 3),
                slider_multiplier: spec_dec_at(fs, 4),
                slider_tickrate: spec_dec_at(fs, 5),
            },
        )
    }
}

impl Default for Difficulty {
    fn default() -> (r: Difficulty)
        ensures
            r == spec_difficulty_default(),
    {
        Difficulty {
            hp_drain_rate: decimal_zero(),
            circle_size: decimal_zero(),
            overall_difficulty: decimal_zero(),
            approach_rate: decimal_zero(),
            slider_multiplier: decimal_zero(),
            slider_tickrate: decimal_zero(),
        }
    }
}

impl StructMap for Difficulty {
    fn from_tuples(pairs: &Vec<(String, String)>) -> (r: Difficulty)
        ensures
            r == spec_difficulty_of(pairs.deep_view()),
    {
        Difficulty {
            hp_drain_rate: get_dec(pairs, "HpDrainRate"),
            circle_size: get_dec(pairs, "CircleSize"),
            overall_difficulty: get_dec(pairs, "OverallDifficulty"),
            approach_rate: get_dec(pairs, "ApproachRate"),
            slider_multiplier: get_dec(pairs, "SliderMultiplier"),
            slider_tickrate: get_dec(pairs, "SliderTickrate"),
        }
    }

    fn from_vec(fields: &Vec<String>) -> (r: Option<Difficulty>)
        ensures
            r == spec_difficulty_from_fields(fields.deep_view()),
    {
        if fields.len() < 6 {
            return None;
        }
        Some(
            Difficulty {
                hp_drain_rate: fld_dec(fields, 0),
                circle_size: fld_dec(fields, 1),
                overall_difficulty: fld_dec(fields, 2),
                approach_rate: fld_dec(fields, 3),
                slider_multiplier: fld_dec(fields, 4),
                slider_tickrate: fld_dec(fields, 5),
            },
        )
    }
}

/// The Events section: background image and video paths.
#[derive(Debug, Clone, PartialEq)]
pub struct Events {
    pub background: String,
    pub video: String,
}

/// Mathematical view of [`Events`].
pub struct EventsView {
    pub background: Seq<char>,
    pub video: Seq<char>,
}

impl View for Events {
    type V = EventsView;

    open spec fn view(&self) -> EventsView {
        EventsView { background: self.background@, video: self.video@ }
    }
}

/// The Events section with both paths empty.
pub open spec fn spec_events_default() -> EventsView {
    EventsView { background: seq![], video: seq![] }
}

impl Default for Events {
    fn default() -> (r: Events)
        ensures
            r@ == spec_events_default(),
    {
        Events { background: String::new(), video: String::new() }
    }
}

/// A timing point: a tempo and sample-control marker.
#[derive(Debug, Clone, Copy, PartialEq, Eq)]
pub struct TimingPoint {
    pub offset: u32,
    pub msec_per_beat: Decimal,
    pub meter: u32,
    pub sample_type: u32,
    pub sample_set: u32,
    pub volume: u32,
    pub inherited: bool,
    pub kiai_mode: bool,
}

/// A timing point with every field at its default.
pub open spec fn spec_timing_point_default() -> TimingPoint {
    TimingPoint {
        offset: 0,
        msec_per_beat: spec_decimal_zero(),
        meter: 0,
        sample_type: 0,
        sample_set: 0,
        volume: 0,
        inherited: false,
        kiai_mode: false,
    }
}

/// A timing point read from key/value pairs.
pub open spec fn spec_timing_point_of(pairs: Seq<(Seq<char>, Seq<char>)>) -> TimingPoint {
    TimingPoint {
        offset: spec_u32_field(pairs, "Offset"@),
        msec_per_beat: spec_dec_field(pairs, "MsecPerBeat"@),
        meter: spec_u32_field(pairs, "Meter"@),
        sample_type: spec_u32_field(pairs, "SampleType"@),
        sample_set: spec_u32_field(pairs, "SampleSet"@),
        volume: spec_u32_field(pairs, "Volume"@),
        inherited: spec_bool_field(pairs, "Inherited"@),
        kiai_mode: spec_bool_field(pairs, "KiaiMode"@),
    }
}

/// A timing point read from a positional record of at least eight fields.
pub open spec fn spec_timing_point_from_fields(fs: Seq<Seq<char>>) -> Option<TimingPoint> {
    if fs.len() < 8 {
        None
    } else {
        Some(
            TimingPoint {
                offset: spec_u32_at(fs, 0),
                msec_per_beat: spec_dec_at(fs, 1),
                meter: spec_u32_at(fs, 2),
                sample_type: spec_u32_at(fs, 3),
                sample_set: spec_u32_at(fs, 4),
                volume: spec_u32_at(fs, 5),
                inherited: spec_bool_at(fs, 6),
                kiai_mode: spec_bool_at(fs, 7),
            },
        )
    }
}

impl Default for TimingPoint {
    fn default() -> (r: TimingPoint)
        ensures
            r == spec_timing_point_default(),
    {
        TimingPoint {
            offset: 0,
            msec_per_beat: decimal_zero(),
            meter: 0,
            sample_type: 0,
            sample_set: 0,
            volume: 0,
            inherited: false,
            kiai_mode: false,
        }
    }
}

impl StructMap for TimingPoint {
    fn from_tuples(pairs: &Vec<(String, String)>) -> (r: TimingPoint)
        ensures
            r == spec_timing_point_of(pairs.deep_view()),
    {
        TimingPoint {
            offset: get_u32(pairs, "Offset"),
            msec_per_beat: get_dec(pairs, "MsecPerBeat"),
            meter: get_u32(pairs, "Meter"),
            sample_type: get_u32(pairs, "SampleType"),
            sample_set: get_u32(pairs, "SampleSet"),
            volume: get_u32(pairs, "Volume"),
            inherited: get_bool(pairs, "Inherited"),
            kiai_mode: get_bool(pairs, "KiaiMode"),
        }
    }

    fn from_vec(fields: &Vec<String>) -> (r: Option<TimingPoint>)
        ensures
            r == spec_timing_point_from_fields(fields.deep_view()),
    {
        if fields.len() < 8 {
            return None;
        }
        Some(
            TimingPoint {
                offset: fld_u32(fields, 0),
                msec_per_beat: fld_dec(fields, 1),
                meter: fld_u32(fields, 2),
                sample_type: fld_u32(fields, 3),
                sample_set: fld_u32(fields, 4),
                volume: fld_u32(fields, 5),
                inherited: fld_bool(fields, 6),
                kiai_mode: fld_bool(fields, 7),
            },
        )
    }
}

/// A combo colour: three eight-bit channels.
#[derive(Debug, Clone, Copy, PartialEq, Eq)]
pub struct Colour {
    pub red: u8,
    pub green: u8,
    pub blue: u8,
}

/// A colour with every channel at zero.
pub open spec fn spec_colour_default() -> Colour {
    Colour { red: 0, green: 0, blue: 0 }
}

/// A colour read from key/value pairs.
pub open spec fn spec_colour_of(pairs: Seq<(Seq<char>, Seq<char>)>) -> Colour {
    Colour {
        red: (spec_u32_field(pairs, "Red"@) & 0xff) as u8,
        green: (spec_u32_field(pairs, "Green"@) & 0xff) as u8,
        blue: (spec_u32_field(pairs, "Blue"@) & 0xff) as u8,
    }
}

/// A colour read from a positional record of at least three fields; each
/// channel keeps the low eight bits of its integer reading.
pub open spec fn spec_colour_from_fields(fs: Seq<Seq<char>>) -> Option<Colour> {
    if fs.len() < 3 {
        None
    } else {
        Some(
            Colour { red: spec_u8_at(fs, 0), green: spec_u8_at(fs, 1), blue: spec_u8_at(fs, 2) },
        )
    }
}

impl Default for Colour {
    fn default() -> (r: Colour)
        ensures
            r == spec_colour_default(),
    {
        Colour { red: 0, green: 0, blue: 0 }
    }
}

impl StructMap for Colour {
    fn from_tuples(pairs: &Vec<(String, String)>) -> (r: Colour)
        ensures
            r == spec_colour_of(pairs.deep_view()),
    {
        Colour {
            red: (get_u32(pairs, "Red") & 0xff) as u8,
            green: (get_u32(pairs, "Green") & 0xff) as u8,
            blue: (get_u32(pairs, "Blue") & 0xff) as u8,
        }
    }

    fn from_vec(fields: &Vec<String>) -> (r: Option<Colour>)
        ensures
            r == spec_colour_from_fields(fields.deep_view()),
    {
        if fields.len() < 3 {
            return None;
        }
        Some(
            Colour { red: fld_u8(fields, 0), green: fld_u8(fields, 1), blue: fld_u8(fields, 2) },
        )
    }
}

/// A hit object: a gameplay event with a position, a time, a type bitmask,
/// and variant-specific trailing fields.
#[derive(Debug, Clone, Copy, PartialEq, Eq)]
pub struct HitObj {
    pub x: u32,
    pub y: u32,
    pub time: u32,
    pub ty: u32,
    pub hit_sound: u32,
    pub time_len: Decimal,
    pub time_end: u32,
}

/// A hit object with every field at its default: the zero-valued object.
pub open spec fn spec_hit_obj_default() -> HitObj {
    HitObj {
        x: 0,
        y: 0,
        time: 0,
        ty: 0,
        hit_sound: 0,
        time_len: spec_decimal_zero(),
        time_end: 0,
    }
}

impl Default for HitObj {
    fn default() -> (r: HitObj)
        ensures
            r == spec_hit_obj_default(),
    {
        HitObj {
            x: 0,
            y: 0,
            time: 0,
            ty: 0,
            hit_sound: 0,
            time_len: decimal_zero(),
            time_end: 0,
        }
    }
}

} // verus!
