//! The hit-object variant decoder: classifies a comma record by its type
//! bitmask (bit 0 circle, bit 1 slider, bit 3 spinner, tested in that order)
//! and extracts the fields of the matching variant.

use vstd::prelude::*;

use crate::convert::spec_decimal_zero;
use crate::convert::decimal_zero;
use crate::fields::fld_dec;
use crate::fields::fld_u32;
use crate::fields::spec_dec_at;
use crate::fields::spec_u32_at;
use crate::types::spec_hit_obj_default;
use crate::types::HitObj;

verus! {

/// A hit object read from a record of at least five fields.  Bit 0 selects a
/// circle (fields 0 to 4), else bit 1 a slider (with the duration from field
/// 7), else bit 3 a spinner (with the end time from field 5); when none of
/// those bits is set the record reads as the zero-valued object.  `None` when
/// the record is shorter than its variant requires.
pub open spec fn spec_hit_obj_of(fs: Seq<Seq<char>>) -> Option<HitObj> {
    if fs.len() < 5 {
        None
    } else {
        let ty = spec_u32_at(fs, 3);
        if ty & 1 != 0 {
            Some(
                HitObj {
                    x: spec_u32_at(fs, 0),
                    y: spec_u32_at(fs, 1),
                    time: spec_u32_at(fs, 2),
                    ty,
                    hit_sound: spec_u32_at(fs, 4),
                    time_len: spec_decimal_zero(),
                    time_end: 0,
                },
            )
        } else if ty & 2 != 0 {
            if fs.len() < 8 {
                None
            } else {
                Some(
                    HitObj {
                        x: spec_u32_at(fs, 0),
                        y: spec_u32_at(fs, 1),
                        time: spec_u32_at(fs, 2),
                        ty,
                        hit_sound: spec_u32_at(fs, 4),
                        time_len: spec_dec_at(fs, 7),
                        time_end: 0,
                    },
                )
            }
        } else if ty & 8 != 0 {
            if fs.len() < 6 {
                None
            } else {
                Some(
                    HitObj {
                        x: spec_u32_at(fs, 0),
                        y: spec_u32_at(fs, 1),
                        time: spec_u32_at(fs, 2),
                        ty,
                        hit_sound: spec_u32_at(fs, 4),
                        time_len: spec_decimal_zero(),
                        time_end: spec_u32_at(fs, 5),
                    },
                )
            }
        } else {
            Some(spec_hit_obj_default())
        }
    }
}

/// Exec hit-object variant decoder.
pub fn parse_hit_obj(fields: &Vec<String>) -> (r: Option<HitObj>)
    ensures
        r == spec_hit_obj_of(fields.deep_view()),
{
    if fields.len() < 5 {
        return None;
    }
    let ty = fld_u32(fields, 3);
    if ty & 1 != 0 {
        Some(
            HitObj {
                x: fld_u32(fields, 0),
                y: fld_u32(fields, 1),
                time: fld_u32(fields, 2),
                ty,
                hit_sound: fld_u32(fields, 4),
                time_len: decimal_zero(),
                time_end: 0,
            },
        )
    } else if ty & 2 != 0 {
        if fields.len() < 8 {
            None
        } else {
            Some(
                HitObj {
                    x: fld_u32(fields, 0),
                    y: fld_u32(fields, 1),
                    time: fld_u32(fields, 2),
                    ty,
                    hit_sound: fld_u32(fields, 4),
                    time_len: fld_dec(fields, 7),
                    time_end: 0,
                },
            )
        }
    } else if ty & 8 != 0 {
        if fields.len() < 6 {
            None
        } else {
            Some(
                HitObj {
                    x: fld_u32(fields, 0),
                    y: fld_u32(fields, 1),
                    time: fld_u32(fields, 2),
                    ty,
                    hit_sound: fld_u32(fields, 4),
                    time_len: decimal_zero(),
                    time_end: fld_u32(fields, 5),
                },
            )
        }
    } else {
        Some(HitObj::default())
    }
}

} // verus!
