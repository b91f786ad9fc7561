//! Hit-object variant classification tests.

use osu_parser::convert::Decimal;
use osu_parser::hitobj::parse_hit_obj;
use osu_parser::types::HitObj;

fn fields(raw: &[&str]) -> Vec<String> {
    raw.iter().map(|s| s.to_string()).collect()
}

#[test]
fn bitmask_one_is_a_circle() {
    let h = parse_hit_obj(&fields(&["128", "128", "5000", "1", "0"])).unwrap();
    assert_eq!(
        h,
        HitObj {
            x: 128,
            y: 128,
            time: 5000,
            ty: 1,
            hit_sound: 0,
            time_len: Decimal { neg: false, mantissa: 0, scale: 0 },
            time_end: 0,
        }
    );
}

#[test]
fn bitmask_two_is_a_slider_with_field_seven() {
    let h = parse_hit_obj(
        &fields(&["256", "192", "6000", "2", "4", "B|380:192", "1", "140", "1.5"]),
    ).unwrap();
    assert_eq!(h.x, 256);
    assert_eq!(h.ty, 2);
    assert_eq!(h.hit_sound, 4);
    assert_eq!(h.time_len, Decimal { neg: false, mantissa: 140, scale: 0 });
    assert_eq!(h.time_end, 0);
}

#[test]
fn bitmask_eight_is_a_spinner_with_field_five() {
    let h = parse_hit_obj(&fields(&["160", "320", "7000", "8", "0", "7500"])).unwrap();
    assert_eq!(h.ty, 8);
    assert_eq!(h.time_end, 7500);
    assert_eq!(h.time_len, Decimal { neg: false, mantissa: 0, scale: 0 });
}

#[test]
fn bitmask_zero_is_the_zero_object() {
    let h = parse_hit_obj(&fields(&["128", "128", "5000", "0", "0"])).unwrap();
    assert_eq!(h, HitObj::default());
}

#[test]
fn circle_bit_wins_over_other_bits() {
    // Bit 0 set alongside bit 1: the circle arm wins, field 7 is ignored.
    let h = parse_hit_obj(
        &fields(&["10", "20", "30", "3", "0", "B|1:2", "1", "99"]),
    ).unwrap();
    assert_eq!(h.ty, 3);
    assert_eq!(h.time_len, Decimal { neg: false, mantissa: 0, scale: 0 });
}

#[test]
fn new_combo_only_bitmask_zeroes_the_record() {
    // Bit 2 (new combo) alone selects no variant: the record reads as the
    // zero-valued object.
    let h = parse_hit_obj(&fields(&["10", "20", "30", "4", "0"])).unwrap();
    assert_eq!(h, HitObj::default());
}

#[test]
fn too_few_fields_fail() {
    assert_eq!(parse_hit_obj(&fields(&["1", "2", "3", "1"])), None);
    assert_eq!(parse_hit_obj(&fields(&["1", "2", "3", "2", "0", "a", "b"])), None);
    assert_eq!(parse_hit_obj(&fields(&["1", "2", "3", "8", "0"])), None);
}

#[test]
fn unparseable_coordinates_default_to_zero() {
    let h = parse_hit_obj(&fields(&["x", "y", "t", "1", "hs"])).unwrap();
    assert_eq!(h.x, 0);
    assert_eq!(h.y, 0);
    assert_eq!(h.time, 0);
    assert_eq!(h.ty, 1);
    assert_eq!(h.hit_sound, 0);
}
