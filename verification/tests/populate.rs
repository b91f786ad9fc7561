//! Field-populator tests: sections built from key/value pairs and from
//! positional records, with defaults for missing or unparseable fields.

use osu_parser::convert::Decimal;
use osu_parser::convert::Mode;
use osu_parser::traits::StructMap;
use osu_parser::types::Colour;
use osu_parser::types::Editor;
use osu_parser::types::General;
use osu_parser::types::Metadata;
use osu_parser::types::TimingPoint;

fn pair(k: &str, v: &str) -> (String, String) {
    (k.to_string(), v.to_string())
}

#[test]
fn general_from_tuples_reads_camel_case_keys() {
    let pairs = vec![
        pair("AudioFilename", "song.mp3"),
        pair("AudioLeadIn", "1500"),
        pair("Countdown", "1"),
        pair("Mode", "2"),
    ];
    let g = General::from_tuples(&pairs);
    assert_eq!(g.audio_filename, "song.mp3");
    assert_eq!(g.audio_lead_in, 1500);
    assert_eq!(g.countdown, true);
    assert_eq!(g.mode, Mode::CatchTheBeat);
    // Unlisted fields hold their defaults.
    assert_eq!(g.preview_time, 0);
    assert_eq!(g.sample_set, "");
    assert_eq!(g.widescreen_storyboard, false);
}

#[test]
fn bad_tokens_fall_back_to_defaults() {
    let pairs = vec![
        pair("AudioLeadIn", "not-a-number"),
        pair("Countdown", "yes"),
        pair("StackLeniency", "x.y"),
        pair("Mode", "banana"),
    ];
    let g = General::from_tuples(&pairs);
    assert_eq!(g.audio_lead_in, 0);
    assert_eq!(g.countdown, false);
    assert_eq!(g.stack_leniency, Decimal { neg: false, mantissa: 0, scale: 0 });
    assert_eq!(g.mode, Mode::Wrong);
}

#[test]
fn missing_mode_key_reads_as_wrong() {
    let pairs = vec![pair("AudioFilename", "song.mp3")];
    let g = General::from_tuples(&pairs);
    assert_eq!(g.mode, Mode::Wrong);
}

#[test]
fn later_pairs_overwrite_earlier_ones() {
    let pairs = vec![pair("AudioLeadIn", "1"), pair("AudioLeadIn", "2")];
    let g = General::from_tuples(&pairs);
    assert_eq!(g.audio_lead_in, 2);
}

#[test]
fn default_section_equals_populate_from_nothing() {
    let none: Vec<(String, String)> = Vec::new();
    assert_eq!(General::from_tuples(&none), General::default());
    assert_eq!(Editor::from_tuples(&none), Editor::default());
    assert_eq!(Metadata::from_tuples(&none), Metadata::default());
}

#[test]
fn editor_lists_and_metadata_tags() {
    let pairs = vec![pair("Bookmarks", "100,200,zzz,300"), pair("DistanceSpacing", "1.22")];
    let e = Editor::from_tuples(&pairs);
    assert_eq!(e.bookmarks, vec![100, 200, 300]);
    assert_eq!(e.distance_spacing, Decimal { neg: false, mantissa: 122, scale: 2 });

    let pairs = vec![pair("Tags", "touhou music game"), pair("BeatmapID", "77")];
    let m = Metadata::from_tuples(&pairs);
    assert_eq!(m.tags, vec!["touhou", "music", "game"]);
    assert_eq!(m.beatmap_ID, 77);
}

#[test]
fn general_from_vec_reads_fields_by_position() {
    let fields: Vec<String> = vec![
        "song.mp3".to_string(),
        "1500".to_string(),
        "10500".to_string(),
        "1".to_string(),
        "Soft".to_string(),
        "0.7".to_string(),
        "3".to_string(),
        "0".to_string(),
        "bad".to_string(),
    ];
    let g = General::from_vec(&fields).unwrap();
    assert_eq!(g.audio_filename, "song.mp3");
    assert_eq!(g.audio_lead_in, 1500);
    assert_eq!(g.countdown, true);
    assert_eq!(g.mode, Mode::OsuMania);
    assert_eq!(g.letterbox_in_breaks, false);
    // An unparseable boolean falls back to the default.
    assert_eq!(g.widescreen_storyboard, false);

    let short: Vec<String> = vec!["song.mp3".to_string()];
    assert_eq!(General::from_vec(&short), None);
}

#[test]
fn timing_point_from_vec_needs_eight_fields() {
    let short: Vec<String> = vec!["1018".to_string(), "390.5".to_string()];
    assert_eq!(TimingPoint::from_vec(&short), None);

    let full: Vec<String> = vec![
        "1018".to_string(),
        "390.5".to_string(),
        "4".to_string(),
        "2".to_string(),
        "1".to_string(),
        "60".to_string(),
        "1".to_string(),
        "0".to_string(),
    ];
    let tp = TimingPoint::from_vec(&full).unwrap();
    assert_eq!(tp.offset, 1018);
    assert_eq!(tp.msec_per_beat, Decimal { neg: false, mantissa: 3905, scale: 1 });
    assert_eq!(tp.meter, 4);
    assert_eq!(tp.sample_type, 2);
    assert_eq!(tp.sample_set, 1);
    assert_eq!(tp.volume, 60);
    assert_eq!(tp.inherited, true);
    assert_eq!(tp.kiai_mode, false);
}

#[test]
fn colour_channels_keep_low_eight_bits() {
    let fields: Vec<String> = vec!["300".to_string(), "255".to_string(), "0".to_string()];
    let c = Colour::from_vec(&fields).unwrap();
    // 300 is 0x12c: the channel keeps the low byte, 0x2c.
    assert_eq!(c.red, 44);
    assert_eq!(c.green, 255);
    assert_eq!(c.blue, 0);

    let short: Vec<String> = vec!["1".to_string(), "2".to_string()];
    assert_eq!(Colour::from_vec(&short), None);
}

#[test]
fn extra_positional_fields_are_ignored() {
    let nine: Vec<String> = vec![
        "1".to_string(),
        "2".to_string(),
        "3".to_string(),
        "4".to_string(),
        "5".to_string(),
        "6".to_string(),
        "1".to_string(),
        "1".to_string(),
        "extra".to_string(),
    ];
    let tp = TimingPoint::from_vec(&nine).unwrap();
    assert_eq!(tp.offset, 1);
    assert_eq!(tp.kiai_mode, true);
}
