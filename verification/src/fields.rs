//! The generic field populator: looks a field's key up in the decoded
//! key/value pairs (or picks a positional field), runs the value conversion,
//! and substitutes the field's default on a missing key or a failed
//! conversion.  A bad field never fails the whole structure.

use vstd::prelude::*;

use crate::convert::spec_parse_u32;
use crate::convert::spec_parse_bool;
use crate::convert::spec_parse_decimal;
use crate::convert::spec_mode_of;
use crate::convert::spec_u32_list;
use crate::convert::spec_ws_tokens;
use crate::convert::spec_decimal_zero;
use crate::convert::parse_u32;
use crate::convert::parse_bool;
use crate::convert::parse_decimal;
use crate::convert::mode_of;
use crate::convert::parse_u32_list;
use crate::convert::parse_ws_tokens;
use crate::convert::decimal_zero;
use crate::convert::Decimal;
use crate::convert::Mode;
use crate::scan::str_eq;

verus! {

/// The value of the last pair whose key is `key`, as a map built from the
/// pairs in order would hold it.
pub open spec fn spec_lookup(pairs: Seq<(Seq<char>, Seq<char>)>, key: Seq<char>) -> Option<
    Seq<char>,
>
    decreases pairs.len(),
{
    if pairs.len() == 0 {
        None
    } else if pairs.last().0 == key {
        Some(pairs.last().1)
    } else {
        spec_lookup(pairs.drop_last(), key)
    }
}

fn lookup_prefix(pairs: &Vec<(String, String)>, key: &str, len: usize) -> (r: Option<String>)
    requires
        len <= pairs@.len(),
    ensures
        match r {
            Some(v) => spec_lookup(pairs.deep_view().subrange(0, len as int), key@) == Some(v@),
            None => spec_lookup(pairs.deep_view().subrange(0, len as int), key@) is None,
        },
    decreases len,
{
    if len == 0 {
        proof {
            assert(pairs.deep_view().subrange(0, 0).len() == 0);
        }
        None
    } else {
        let ghost pre = pairs.deep_view().subrange(0, len as int);
        proof {
            assert(pre.last() == pairs.deep_view()[len - 1]);
            assert(pairs.deep_view()[len - 1] == (pairs@[len - 1].0@, pairs@[len - 1].1@));
            assert(pre.drop_last() =~= pairs.deep_view().subrange(0, len - 1));
        }
        let p = &pairs[len - 1];
        if str_eq(p.0.as_str(), key) {
            Some(p.1.clone())
        } else {
            lookup_prefix(pairs, key, len - 1)
        }
    }
}

/// Exec lookup of `key` among the pairs; the last occurrence wins.
pub fn lookup(pairs: &Vec<(String, String)>, key: &str) -> (r: Option<String>)
    ensures
        match r {
            Some(v) => spec_lookup(pairs.deep_view(), key@) == Some(v@),
            None => spec_lookup(pairs.deep_view(), key@) is None,
        },
{
    let n = pairs.len();
    proof {
        assert(pairs.deep_view().subrange(0, n as int) =~= pairs.deep_view());
    }
    lookup_prefix(pairs, key, n)
}

/// A token's unsigned-integer reading, with zero for a failed conversion.
pub open spec fn spec_u32_or_zero(t: Seq<char>) -> u32 {
    match spec_parse_u32(t) {
        Some(v) => v,
        None => 0,
    }
}

/// A token's boolean reading, with false for a failed conversion.
pub open spec fn spec_bool_or_false(t: Seq<char>) -> bool {
    match spec_parse_bool(t) {
        Some(v) => v,
        None => false,
    }
}

/// A token's decimal reading, with zero for a failed conversion.
pub open spec fn spec_dec_or_zero(t: Seq<char>) -> Decimal {
    match spec_parse_decimal(t) {
        Some(v) => v,
        None => spec_decimal_zero(),
    }
}

/// A text field read from the pairs; empty when the key is absent.
pub open spec fn spec_str_field(pairs: Seq<(Seq<char>, Seq<char>)>, key: Seq<char>) -> Seq<char> {
    match spec_lookup(pairs, key) {
        Some(t) => t,
        None => seq![],
    }
}

/// An unsigned-integer field read from the pairs; zero when the key is absent
/// or the token does not convert.
pub open spec fn spec_u32_field(pairs: Seq<(Seq<char>, Seq<char>)>, key: Seq<char>) -> u32 {
    match spec_lookup(pairs, key) {
        Some(t) => spec_u32_or_zero(t),
        None => 0,
    }
}

/// A boolean field read from the pairs; false when the key is absent or the
/// token does not convert.
pub open spec fn spec_bool_field(pairs: Seq<(Seq<char>, Seq<char>)>, key: Seq<char>) -> bool {
    match spec_lookup(pairs, key) {
        Some(t) => spec_bool_or_false(t),
        None => false,
    }
}

/// A decimal field read from the pairs; zero when the key is absent or the
/// token does not convert.
pub open spec fn spec_dec_field(pairs: Seq<(Seq<char>, Seq<char>)>, key: Seq<char>) -> Decimal {
    match spec_lookup(pairs, key) {
        Some(t) => spec_dec_or_zero(t),
        None => spec_decimal_zero(),
    }
}

/// A mode field read from the pairs; `Wrong` when the key is absent.
pub open spec fn spec_mode_field(pairs: Seq<(Seq<char>, Seq<char>)>, key: Seq<char>) -> Mode {
    match spec_lookup(pairs, key) {
        Some(t) => spec_mode_of(t),
        None => Mode::Wrong,
    }
}

/// A list-of-integers field read from the pairs; empty when the key is absent.
pub open spec fn spec_u32_list_field(pairs: Seq<(Seq<char>, Seq<char>)>, key: Seq<char>) -> Seq<
    u32,
> {
    match spec_lookup(pairs, key) {
        Some(t) => spec_u32_list(t),
        None => seq![],
    }
}

/// A list-of-texts field read from the pairs; empty when the key is absent.
pub open spec fn spec_str_list_field(pairs: Seq<(Seq<char>, Seq<char>)>, key: Seq<char>) -> Seq<
    Seq<char>,
> {
    match spec_lookup(pairs, key) {
        Some(t) => spec_ws_tokens(t),
        None => seq![],
    }
}

/// Exec text field getter.
pub fn get_str(pairs: &Vec<(String, String)>, key: &str) -> (r: String)
    ensures
        r@ == spec_str_field(pairs.deep_view(), key@),
{
    match lookup(pairs, key) {
        Some(v) => v,
        None => String::new(),
    }
}

/// Exec unsigned-integer field getter.
pub fn get_u32(pairs: &Vec<(String, String)>, key: &str) -> (r: u32)
    ensures
        r == spec_u32_field(pairs.deep_view(), key@),
{
    match lookup(pairs, key) {
        Some(v) => match parse_u32(v.as_str()) {
            Some(x) => x,
            None => 0,
        },
        None => 0,
    }
}

/// Exec boolean field getter.
pub fn get_bool(pairs: &Vec<(String, String)>, key: &str) -> (r: bool)
    ensures
        r == spec_bool_field(pairs.deep_view(), key@),
{
    match lookup(pairs, key) {
        Some(v) => match parse_bool(v.as_str()) {
            Some(x) => x,
            None => false,
        },
        None => false,
    }
}

/// Exec decimal field getter.
pub fn get_dec(pairs: &Vec<(String, String)>, key: &str) -> (r: Decimal)
    ensures
        r == spec_dec_field(pairs.deep_view(), key@),
{
    match lookup(pairs, key) {
        Some(v) => match parse_decimal(v.as_str()) {
            Some(x) => x,
            None => decimal_zero(),
        },
        None => decimal_zero(),
    }
}

/// Exec mode field getter.
pub fn get_mode(pairs: &Vec<(String, String)>, key: &str) -> (r: Mode)
    ensures
        r == spec_mode_field(pairs.deep_view(), key@),
{
    match lookup(pairs, key) {
        Some(v) => mode_of(v.as_str()),
        None => Mode::Wrong,
    }
}

/// Exec list-of-integers field getter.
pub fn get_u32_list(pairs: &Vec<(String, String)>, key: &str) -> (r: Vec<u32>)
    ensures
        r@ == spec_u32_list_field(pairs.deep_view(), key@),
{
    match lookup(pairs, key) {
        Some(v) => parse_u32_list(v.as_str()),
        None => Vec::new(),
    }
}

/// Exec list-of-texts field getter.
pub fn get_str_list(pairs: &Vec<(String, String)>, key: &str) -> (r: Vec<String>)
    ensures
        r.deep_view() == spec_str_list_field(pairs.deep_view(), key@),
{
    match lookup(pairs, key) {
        Some(v) => parse_ws_tokens(v.as_str()),
        None => {
            let r: Vec<String> = Vec::new();
            proof {
                assert(r.deep_view() =~= Seq::<Seq<char>>::empty());
            }
            r
        },
    }
}

/// The positional field at index `i`, empty when the record is too short.
pub open spec fn spec_str_at(fs: Seq<Seq<char>>, i: int) -> Seq<char> {
    if 0 <= i < fs.len() {
        fs[i]
    } else {
        seq![]
    }
}

/// The unsigned-integer reading of the positional field at index `i`.
pub open spec fn spec_u32_at(fs: Seq<Seq<char>>, i: int) -> u32 {
    spec_u32_or_zero(spec_str_at(fs, i))
}

/// The boolean reading of the positional field at index `i`.
pub open spec fn spec_bool_at(fs: Seq<Seq<char>>, i: int) -> bool {
    spec_bool_or_false(spec_str_at(fs, i))
}

/// The decimal reading of the positional field at index `i`.
pub open spec fn spec_dec_at(fs: Seq<Seq<char>>, i: int) -> Decimal {
    spec_dec_or_zero(spec_str_at(fs, i))
}

/// The low eight bits of the unsigned-integer reading of the positional field
/// at index `i`: channel values of 256 and above are narrowed, not rejected.
pub open spec fn spec_u8_at(fs: Seq<Seq<char>>, i: int) -> u8 {
    (spec_u32_at(fs, i) & 0xff) as u8
}

/// Exec positional text field.
pub fn fld_str(fs: &Vec<String>, i: usize) -> (r: String)
    ensures
        r@ == spec_str_at(fs.deep_view(), i as int),
{
    if i < fs.len() {
        fs[i].clone()
    } else {
        String::new()
    }
}

/// Exec positional unsigned-integer field.
pub fn fld_u32(fs: &Vec<String>, i: usize) -> (r: u32)
    ensures
        r == spec_u32_at(fs.deep_view(), i as int),
{
    if i < fs.len() {
        match parse_u32(fs[i].as_str()) {
            Some(x) => x,
            None => 0,
        }
    } else {
        0
    }
}

/// Exec positional boolean field.
pub fn fld_bool(fs: &Vec<String>, i: usize) -> (r: bool)
    ensures
        r == spec_bool_at(fs.deep_view(), i as int),
{
    if i < fs.len() {
        match parse_bool(fs[i].as_str()) {
            Some(x) => x,
            None => false,
        }
    } else {
        false
    }
}

/// Exec positional decimal field.
pub fn fld_dec(fs: &Vec<String>, i: usize) -> (r: Decimal)
    ensures
        r == spec_dec_at(fs.deep_view(), i as int),
{
    if i < fs.len() {
        match parse_decimal(fs[i].as_str()) {
            Some(x) => x,
            None => decimal_zero(),
        }
    } else {
        decimal_zero()
    }
}

/// Exec positional colour-channel field.
pub fn fld_u8(fs: &Vec<String>, i: usize) -> (r: u8)
    ensures
        r == spec_u8_at(fs.deep_view(), i as int),
{
    (fld_u32(fs, i) & 0xff) as u8
}

} // verus!
