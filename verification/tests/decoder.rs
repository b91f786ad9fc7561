//! Whole-document decoding tests.

use osu_parser::parse_osu;
use osu_parser::convert::Decimal;
use osu_parser::convert::Mode;
use osu_parser::sections::OsuError;
use osu_parser::sections::SectionId;

fn general_sec() -> String {
    let mut d = String::new();
    d.push_str("[General]\r\n");
    d.push_str("AudioFilename: audio.mp3\r\n");
    d.push_str("AudioLeadIn:1500\r\n");
    d.push_str("PreviewTime:10500\r\n");
    d.push_str("Countdown:0\r\n");
    d.push_str("SampleSet: Soft\r\n");
    d.push_str("StackLeniency: 0.7\r\n");
    d.push_str("Mode:1\r\n");
    d.push_str("LetterboxInBreaks:1\r\n");
    d.push_str("WidescreenStoryboard:0\r\n");
    d.push_str("\r\n");
    d
}

fn editor_sec() -> String {
    let mut d = String::new();
    d.push_str("[Editor]\r\n");
    d.push_str("Bookmarks: 11018,21018\r\n");
    d.push_str("DistanceSpacing: 1.22\r\n");
    d.push_str("BeatDivisor:4\r\n");
    d.push_str("GridSize:4\r\n");
    d.push_str("TimelineZoom: 2\r\n");
    d.push_str("\r\n");
    d
}

fn metadata_sec() -> String {
    let mut d = String::new();
    d.push_str("[Metadata]\r\n");
    d.push_str("Title:Night of Knights\r\n");
    d.push_str("TitleUnicode:Night of Knights\r\n");
    d.push_str("Artist:beet\r\n");
    d.push_str("ArtistUnicode:beet\r\n");
    d.push_str("Creator:alacat\r\n");
    d.push_str("Version:Hard\r\n");
    d.push_str("Source:game\r\n");
    d.push_str("Tags:touhou music game\r\n");
    d.push_str("BeatmapID:123456\r\n");
    d.push_str("BeatmapSetID:54321\r\n");
    d.push_str("\r\n");
    d
}

fn difficulty_sec() -> String {
    let mut d = String::new();
    d.push_str("[Difficulty]\r\n");
    d.push_str("HpDrainRate:7\r\n");
    d.push_str("CircleSize:4\r\n");
    d.push_str("OverallDifficulty:8\r\n");
    d.push_str("ApproachRate:9\r\n");
    d.push_str("SliderMultiplier:1.8\r\n");
    d.push_str("SliderTickrate:1\r\n");
    d.push_str("\r\n");
    d
}

fn events_sec() -> String {
    let mut d = String::new();
    d.push_str("[Events]\r\n");
    d.push_str("//Background and Video events\r\n");
    d.push_str("0,0,\"bg.jpg\",0,0\r\n");
    d.push_str("Video,0,\"movie.avi\"\r\n");
    d.push_str("//Break Periods\r\n");
    d
}

fn timing_points_sec() -> String {
    let mut d = String::new();
    d.push_str("[TimingPoints]\r\n");
    d.push_str("1018,390.243902439024,4,2,1,60,1,0\r\n");
    d.push_str("21018,-100,4,2,1,65,0,1\r\n");
    d.push_str("\r\n");
    d
}

fn colours_sec() -> String {
    let mut d = String::new();
    d.push_str("[Colours]\r\n");
    d.push_str("Combo1 : 255,128,0\r\n");
    d.push_str("Combo2 : 0,128,255\r\n");
    d.push_str("\r\n");
    d
}

fn hit_objects_sec() -> String {
    let mut d = String::new();
    d.push_str("[HitObjects]\r\n");
    d.push_str("128,128,5000,1,0\r\n");
    d.push_str("256,192,6000,2,0,B|380:192,1,140,1.5\r\n");
    d.push_str("160,320,7000,8,0,7500\r\n");
    d
}

fn header_line() -> String {
    let mut d = String::new();
    d.push_str("osu file format v14\r\n");
    d.push_str("\r\n");
    d
}

fn forward_doc() -> String {
    let mut d = header_line();
    d.push_str(&general_sec());
    d.push_str(&editor_sec());
    d.push_str(&metadata_sec());
    d.push_str(&difficulty_sec());
    d.push_str(&events_sec());
    d.push_str(&timing_points_sec());
    d.push_str(&colours_sec());
    d.push_str(&hit_objects_sec());
    d
}

fn reverse_doc() -> String {
    let mut d = header_line();
    d.push_str(&hit_objects_sec());
    d.push_str(&colours_sec());
    d.push_str(&timing_points_sec());
    d.push_str(&events_sec());
    d.push_str(&difficulty_sec());
    d.push_str(&metadata_sec());
    d.push_str(&editor_sec());
    d.push_str(&general_sec());
    d
}

#[test]
fn it_works() {
    let input = forward_doc();
    let res = parse_osu(&input);
    if let Ok(osu) = res {
        println!("{:?}", osu);
    } else {
        println!("{:?}", res);
        assert!(false);
    }
}

#[test]
fn decodes_every_section() {
    let input = forward_doc();
    let osu = parse_osu(&input).unwrap();
    assert_eq!(osu.version, 14);

    assert_eq!(osu.general.audio_filename, "audio.mp3");
    assert_eq!(osu.general.audio_lead_in, 1500);
    assert_eq!(osu.general.preview_time, 10500);
    assert_eq!(osu.general.countdown, false);
    assert_eq!(osu.general.sample_set, "Soft");
    assert_eq!(
        osu.general.stack_leniency,
        Decimal { neg: false, mantissa: 7, scale: 1 }
    );
    assert_eq!(osu.general.mode, Mode::Taiko);
    assert_eq!(osu.general.letterbox_in_breaks, true);
    assert_eq!(osu.general.widescreen_storyboard, false);

    assert_eq!(osu.editor.bookmarks, vec![11018, 21018]);
    assert_eq!(
        osu.editor.distance_spacing,
        Decimal { neg: false, mantissa: 122, scale: 2 }
    );
    assert_eq!(osu.editor.beat_divisor, 4);
    assert_eq!(osu.editor.grid_size, 4);
    assert_eq!(
        osu.editor.timeline_zoom,
        Decimal { neg: false, mantissa: 2, scale: 0 }
    );

    assert_eq!(osu.metadata.title, "Night of Knights");
    assert_eq!(osu.metadata.creator, "alacat");
    assert_eq!(osu.metadata.tags, vec!["touhou", "music", "game"]);
    assert_eq!(osu.metadata.beatmap_ID, 123456);
    assert_eq!(osu.metadata.beatmap_set_ID, 54321);

    assert_eq!(
        osu.difficulty.slider_multiplier,
        Decimal { neg: false, mantissa: 18, scale: 1 }
    );

    assert_eq!(osu.events.background, "bg.jpg");
    assert_eq!(osu.events.video, "movie.avi");

    assert_eq!(osu.timing_points.len(), 2);
    assert_eq!(osu.timing_points[0].offset, 1018);
    assert_eq!(
        osu.timing_points[0].msec_per_beat,
        Decimal { neg: false, mantissa: 390243902439024, scale: 12 }
    );
    assert_eq!(osu.timing_points[0].meter, 4);
    assert_eq!(osu.timing_points[0].inherited, true);
    assert_eq!(osu.timing_points[0].kiai_mode, false);
    assert_eq!(
        osu.timing_points[1].msec_per_beat,
        Decimal { neg: true, mantissa: 100, scale: 0 }
    );
    assert_eq!(osu.timing_points[1].inherited, false);
    assert_eq!(osu.timing_points[1].kiai_mode, true);

    assert_eq!(osu.colours.len(), 2);
    assert_eq!(osu.colours[0].red, 255);
    assert_eq!(osu.colours[0].green, 128);
    assert_eq!(osu.colours[0].blue, 0);

    assert_eq!(osu.hit_objects.len(), 3);
}

#[test]
fn section_order_is_irrelevant() {
    let fwd = forward_doc();
    let rev = reverse_doc();
    let a = parse_osu(&fwd).unwrap();
    let b = parse_osu(&rev).unwrap();
    assert_eq!(a, b);
}

#[test]
fn scrambled_section_order_decodes_identically() {
    // Another permutation; every section that scans ahead to a `[` is
    // followed by one.
    let mut d = header_line();
    d.push_str(&metadata_sec());
    d.push_str(&timing_points_sec());
    d.push_str(&general_sec());
    d.push_str(&hit_objects_sec());
    d.push_str(&events_sec());
    d.push_str(&difficulty_sec());
    d.push_str(&colours_sec());
    d.push_str(&editor_sec());
    let a = parse_osu(&forward_doc()).unwrap();
    let b = parse_osu(&d).unwrap();
    assert_eq!(a, b);
}

#[test]
fn missing_mode_key_defaults_to_wrong() {
    let mut d = header_line();
    d.push_str("[General]\r\n");
    d.push_str("AudioFilename: audio.mp3\r\n");
    d.push_str("\r\n");
    d.push_str(&editor_sec());
    d.push_str(&metadata_sec());
    d.push_str(&difficulty_sec());
    d.push_str(&events_sec());
    d.push_str(&timing_points_sec());
    d.push_str(&colours_sec());
    d.push_str(&hit_objects_sec());
    let osu = parse_osu(&d).unwrap();
    assert_eq!(osu.general.mode, Mode::Wrong);
    assert_eq!(osu.general.audio_lead_in, 0);
}

#[test]
fn missing_difficulty_section_fails() {
    let mut d = header_line();
    d.push_str(&general_sec());
    d.push_str(&editor_sec());
    d.push_str(&metadata_sec());
    d.push_str(&events_sec());
    d.push_str(&timing_points_sec());
    d.push_str(&colours_sec());
    d.push_str(&hit_objects_sec());
    let res = parse_osu(&d);
    assert_eq!(res, Err(OsuError::MissingSection(SectionId::Difficulty)));
}

#[test]
fn duplicate_section_fails() {
    let mut d = header_line();
    d.push_str(&general_sec());
    d.push_str(&editor_sec());
    d.push_str(&metadata_sec());
    d.push_str(&difficulty_sec());
    d.push_str(&events_sec());
    d.push_str(&timing_points_sec());
    d.push_str(&colours_sec());
    // A second General section in place of HitObjects: assembly gets stuck
    // on the repeated header.
    d.push_str(&general_sec());
    let res = parse_osu(&d);
    assert_eq!(res, Err(OsuError::DuplicateSection(SectionId::General)));
}

#[test]
fn missing_format_header_fails() {
    let res = parse_osu("totally not a beatmap");
    assert_eq!(res, Err(OsuError::Syntax));
}

#[test]
fn missing_version_digits_fail() {
    let res = parse_osu("osu file format v\r\n");
    assert_eq!(res, Err(OsuError::Syntax));
}

#[test]
fn key_value_line_without_colon_fails() {
    let mut d = header_line();
    d.push_str("[General]\r\n");
    d.push_str("AudioFilename audio.mp3\r\n");
    d.push_str("\r\n");
    let res = parse_osu(&d);
    assert_eq!(res, Err(OsuError::Syntax));
}

#[test]
fn short_timing_point_record_is_malformed() {
    let mut d = header_line();
    d.push_str(&general_sec());
    d.push_str(&editor_sec());
    d.push_str(&metadata_sec());
    d.push_str(&difficulty_sec());
    d.push_str(&events_sec());
    d.push_str("[TimingPoints]\r\n");
    d.push_str("1018,390.5,4\r\n");
    d.push_str("\r\n");
    d.push_str(&colours_sec());
    d.push_str(&hit_objects_sec());
    let res = parse_osu(&d);
    assert_eq!(res, Err(OsuError::MalformedRecord(SectionId::TimingPoints)));
}

#[test]
fn short_colour_record_is_malformed() {
    let mut d = header_line();
    d.push_str(&general_sec());
    d.push_str(&editor_sec());
    d.push_str(&metadata_sec());
    d.push_str(&difficulty_sec());
    d.push_str(&events_sec());
    d.push_str(&timing_points_sec());
    d.push_str("[Colours]\r\n");
    d.push_str("Combo1 : 255,128\r\n");
    d.push_str("\r\n");
    d.push_str(&hit_objects_sec());
    let res = parse_osu(&d);
    assert_eq!(res, Err(OsuError::MalformedRecord(SectionId::Colours)));
}

#[test]
fn slider_without_duration_field_is_malformed() {
    let mut d = header_line();
    d.push_str(&general_sec());
    d.push_str(&editor_sec());
    d.push_str(&metadata_sec());
    d.push_str(&difficulty_sec());
    d.push_str(&events_sec());
    d.push_str(&timing_points_sec());
    d.push_str(&colours_sec());
    d.push_str("[HitObjects]\r\n");
    d.push_str("256,192,6000,2,0\r\n");
    let res = parse_osu(&d);
    assert_eq!(res, Err(OsuError::MalformedRecord(SectionId::HitObjects)));
}

#[test]
fn events_with_unexpected_arity_yield_empty_paths() {
    let mut d = header_line();
    d.push_str(&general_sec());
    d.push_str(&editor_sec());
    d.push_str(&metadata_sec());
    d.push_str(&difficulty_sec());
    d.push_str("[Events]\r\n");
    d.push_str("0,0,\"bg.jpg\",0\r\n");
    d.push_str("Video,0,\"movie.avi\",0\r\n");
    d.push_str(&timing_points_sec());
    d.push_str(&colours_sec());
    d.push_str(&hit_objects_sec());
    let osu = parse_osu(&d).unwrap();
    assert_eq!(osu.events.background, "");
    assert_eq!(osu.events.video, "");
}

#[test]
fn audio_lead_in_line_decodes_to_field() {
    // The exact example: `AudioLeadIn:1500` inside General reads as 1500.
    let input = forward_doc();
    let osu = parse_osu(&input).unwrap();
    assert_eq!(osu.general.audio_lead_in, 1500);
}

#[test]
fn circle_record_decodes_to_circle() {
    // The exact example: `128,128,5000,1,0` reads as a circle hit object.
    let input = forward_doc();
    let osu = parse_osu(&input).unwrap();
    let h = &osu.hit_objects[0];
    assert_eq!(h.x, 128);
    assert_eq!(h.y, 128);
    assert_eq!(h.time, 5000);
    assert_eq!(h.ty, 1);
    assert_eq!(h.hit_sound, 0);
    assert_eq!(h.time_end, 0);
}

#[test]
fn slider_and_spinner_records_decode() {
    let input = forward_doc();
    let osu = parse_osu(&input).unwrap();
    let slider = &osu.hit_objects[1];
    assert_eq!(slider.ty, 2);
    assert_eq!(
        slider.time_len,
        Decimal { neg: false, mantissa: 140, scale: 0 }
    );
    assert_eq!(slider.time_end, 0);
    let spinner = &osu.hit_objects[2];
    assert_eq!(spinner.ty, 8);
    assert_eq!(spinner.time_end, 7500);
}

#[test]
fn trailing_input_after_last_section_is_ignored() {
    // A blank line ends the hit-object records; whatever follows the last
    // matched section is ignored.
    let mut d = forward_doc();
    d.push_str("\r\n");
    d.push_str("whatever trailing text");
    let osu = parse_osu(&d).unwrap();
    assert_eq!(osu.hit_objects.len(), 3);
}

#[test]
fn unicode_values_survive_decoding() {
    let mut d = header_line();
    d.push_str("[General]\r\n");
    d.push_str("AudioFilename: \u{97f3}\u{697d}.mp3\r\n");
    d.push_str("Mode:3\r\n");
    d.push_str("\r\n");
    d.push_str(&editor_sec());
    d.push_str(&metadata_sec());
    d.push_str(&difficulty_sec());
    d.push_str(&events_sec());
    d.push_str(&timing_points_sec());
    d.push_str(&colours_sec());
    d.push_str(&hit_objects_sec());
    let osu = parse_osu(&d).unwrap();
    assert_eq!(osu.general.audio_filename, "\u{97f3}\u{697d}.mp3");
    assert_eq!(osu.general.mode, Mode::OsuMania);
}
