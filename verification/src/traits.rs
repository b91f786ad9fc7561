//! The conversion traits: `FromStr` turns one token into one typed value,
//! `StructMap` populates a whole structure from key/value pairs or from an
//! ordered field list.  Every implementation carries an exact contract; the
//! trait itself only fixes the shape.

use vstd::prelude::*;

use crate::convert::mode_of;
use crate::convert::parse_bool;
use crate::convert::parse_decimal;
use crate::convert::parse_u32;
use crate::convert::parse_u32_list;
use crate::convert::parse_ws_tokens;
use crate::convert::spec_mode_of;
use crate::convert::spec_parse_bool;
use crate::convert::spec_parse_decimal;
use crate::convert::spec_parse_u32;
use crate::convert::spec_u32_list;
use crate::convert::spec_ws_tokens;
use crate::convert::Decimal;
use crate::convert::Mode;

verus! {

/// A failed token conversion.  The populator absorbs it by substituting the
/// field's default; it never reaches a caller of the decoder.
#[derive(Clone, Copy, Debug, PartialEq, Eq)]
pub struct ConvError;

/// One token to one typed value.  Implementations state exactly which tokens
/// convert and to what.
pub trait FromStr: Sized {
    type Err;

    fn from_str(s: &str) -> Result<Self, Self::Err>;
}

/// A structure populated from decoded records: `from_tuples` reads fields by
/// key from key/value pairs, `from_vec` reads them by position and yields
/// `None` when the record has fewer fields than the structure declares.
pub trait StructMap: Sized {
    fn from_tuples(pairs: &Vec<(String, String)>) -> Self;

    fn from_vec(fields: &Vec<String>) -> Option<Self>;
}

impl FromStr for String {
    type Err = ConvError;

    /// Text to text: the identity conversion; it never fails.  (A contract
    /// here would collide with the method of the same name that vstd's
    /// extension trait puts on `String`, so the one-line body speaks for
    /// itself.)
    fn from_str(s: &str) -> Result<String, ConvError> {
        Ok(s.to_owned())
    }
}

impl FromStr for u32 {
    type Err = ConvError;

    /// Unsigned-integer conversion; fails exactly when the token is not an
    /// optionally `+`-signed digit string whose value fits.
    fn from_str(s: &str) -> (r: Result<u32, ConvError>)
        ensures
            match r {
                Ok(v) => spec_parse_u32(s@) == Some(v),
                Err(_) => spec_parse_u32(s@) is None,
            },
    {
        match parse_u32(s) {
            Some(v) => Ok(v),
            None => Err(ConvError),
        }
    }
}

impl FromStr for bool {
    type Err = ConvError;

    /// Boolean conversion: `1` is true, `0` is false, anything else fails.
    fn from_str(s: &str) -> (r: Result<bool, ConvError>)
        ensures
            match r {
                Ok(v) => spec_parse_bool(s@) == Some(v),
                Err(_) => spec_parse_bool(s@) is None,
            },
    {
        match parse_bool(s) {
            Some(v) => Ok(v),
            None => Err(ConvError),
        }
    }
}

impl FromStr for Decimal {
    type Err = ConvError;

    /// Decimal conversion; fails exactly when the token is not a signed
    /// decimal digit string or its mantissa does not fit.
    fn from_str(s: &str) -> (r: Result<Decimal, ConvError>)
        ensures
            match r {
                Ok(v) => spec_parse_decimal(s@) == Some(v),
                Err(_) => spec_parse_decimal(s@) is None,
            },
    {
        match parse_decimal(s) {
            Some(v) => Ok(v),
            None => Err(ConvError),
        }
    }
}

impl FromStr for Mode {
    type Err = ConvError;

    /// Mode conversion; it always resolves to some variant and never fails.
    fn from_str(s: &str) -> (r: Result<Mode, ConvError>)
        ensures
            match r {
                Ok(v) => v == spec_mode_of(s@),
                Err(_) => false,
            },
    {
        Ok(mode_of(s))
    }
}

impl FromStr for Vec<u32> {
    type Err = ConvError;

    /// Comma-list conversion: unparseable elements are dropped, so the
    /// conversion itself never fails.
    fn from_str(s: &str) -> (r: Result<Vec<u32>, ConvError>)
        ensures
            match r {
                Ok(v) => v@ == spec_u32_list(s@),
                Err(_) => false,
            },
    {
        Ok(parse_u32_list(s))
    }
}

impl FromStr for Vec<String> {
    type Err = ConvError;

    /// Whitespace-list conversion: every word is kept verbatim, so the
    /// conversion never fails.
    fn from_str(s: &str) -> (r: Result<Vec<String>, ConvError>)
        ensures
            match r {
                Ok(v) => v.deep_view() == spec_ws_tokens(s@),
                Err(_) => false,
            },
    {
        Ok(parse_ws_tokens(s))
    }
}

} // verus!
