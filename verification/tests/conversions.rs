//! Value-conversion tests: one token to one typed value.

use osu_parser::convert::mode_of;
use osu_parser::convert::parse_bool;
use osu_parser::convert::parse_decimal;
use osu_parser::convert::parse_u32;
use osu_parser::convert::parse_u32_list;
use osu_parser::convert::parse_ws_tokens;
use osu_parser::convert::Decimal;
use osu_parser::convert::Mode;
use osu_parser::traits::FromStr;

#[test]
fn unsigned_tokens() {
    assert_eq!(parse_u32("0"), Some(0));
    assert_eq!(parse_u32("123"), Some(123));
    assert_eq!(parse_u32("+7"), Some(7));
    assert_eq!(parse_u32("007"), Some(7));
    assert_eq!(parse_u32("4294967295"), Some(4294967295));
    assert_eq!(parse_u32("4294967296"), None);
    assert_eq!(parse_u32("12a"), None);
    assert_eq!(parse_u32("-3"), None);
    assert_eq!(parse_u32(""), None);
    assert_eq!(parse_u32("+"), None);
    assert_eq!(parse_u32("99999999999999999999999999"), None);
}

#[test]
fn boolean_tokens() {
    assert_eq!(parse_bool("1"), Some(true));
    assert_eq!(parse_bool("0"), Some(false));
    assert_eq!(parse_bool("2"), None);
    assert_eq!(parse_bool("true"), None);
    assert_eq!(parse_bool(""), None);
    assert_eq!(parse_bool("10"), None);
}

#[test]
fn mode_tokens() {
    assert_eq!(mode_of("0"), Mode::Osu);
    assert_eq!(mode_of("1"), Mode::Taiko);
    assert_eq!(mode_of("2"), Mode::CatchTheBeat);
    assert_eq!(mode_of("3"), Mode::OsuMania);
    assert_eq!(mode_of("+3"), Mode::OsuMania);
    assert_eq!(mode_of("03"), Mode::OsuMania);
    assert_eq!(mode_of("4"), Mode::Wrong);
    assert_eq!(mode_of("-1"), Mode::Wrong);
    assert_eq!(mode_of("-0"), Mode::Osu);
    assert_eq!(mode_of("abc"), Mode::Wrong);
    assert_eq!(mode_of(""), Mode::Wrong);
    assert_eq!(mode_of("99999999999999999999"), Mode::Wrong);
}

#[test]
fn decimal_tokens() {
    assert_eq!(
        parse_decimal("0.7"),
        Some(Decimal { neg: false, mantissa: 7, scale: 1 })
    );
    assert_eq!(
        parse_decimal("-100"),
        Some(Decimal { neg: true, mantissa: 100, scale: 0 })
    );
    assert_eq!(
        parse_decimal("731.707317073171"),
        Some(Decimal { neg: false, mantissa: 731707317073171, scale: 12 })
    );
    assert_eq!(
        parse_decimal("+1.5"),
        Some(Decimal { neg: false, mantissa: 15, scale: 1 })
    );
    assert_eq!(
        parse_decimal("1."),
        Some(Decimal { neg: false, mantissa: 1, scale: 0 })
    );
    assert_eq!(
        parse_decimal(".5"),
        Some(Decimal { neg: false, mantissa: 5, scale: 1 })
    );
    assert_eq!(
        parse_decimal("-0"),
        Some(Decimal { neg: true, mantissa: 0, scale: 0 })
    );
    assert_eq!(parse_decimal("."), None);
    assert_eq!(parse_decimal(""), None);
    assert_eq!(parse_decimal("-"), None);
    assert_eq!(parse_decimal("1e5"), None);
    assert_eq!(parse_decimal("1.2.3"), None);
    assert_eq!(parse_decimal("12a.5"), None);
}

#[test]
fn unsigned_list_tokens() {
    assert_eq!(parse_u32_list("11018,21018"), vec![11018, 21018]);
    assert_eq!(parse_u32_list("1,2,x,3"), vec![1, 2, 3]);
    assert_eq!(parse_u32_list(""), Vec::<u32>::new());
    assert_eq!(parse_u32_list("x,y"), Vec::<u32>::new());
    assert_eq!(parse_u32_list("5"), vec![5]);
}

#[test]
fn whitespace_list_tokens() {
    assert_eq!(parse_ws_tokens("touhou music game"), vec!["touhou", "music", "game"]);
    assert_eq!(parse_ws_tokens("  a \t b  "), vec!["a", "b"]);
    assert_eq!(parse_ws_tokens(""), Vec::<String>::new());
    assert_eq!(parse_ws_tokens("   "), Vec::<String>::new());
    assert_eq!(parse_ws_tokens("one"), vec!["one"]);
}

#[test]
fn from_str_trait_matches_free_functions() {
    let s: Result<String, _> = FromStr::from_str("hello");
    assert_eq!(s.unwrap(), "hello");
    let n: Result<u32, _> = FromStr::from_str("42");
    assert_eq!(n.unwrap(), 42);
    let n2: Result<u32, _> = FromStr::from_str("nope");
    assert!(n2.is_err());
    let b: Result<bool, _> = FromStr::from_str("1");
    assert_eq!(b.unwrap(), true);
    let b2: Result<bool, _> = FromStr::from_str("7");
    assert!(b2.is_err());
    let m: Result<Mode, _> = FromStr::from_str("2");
    assert_eq!(m.unwrap(), Mode::CatchTheBeat);
    let d: Result<Decimal, _> = FromStr::from_str("-2.5");
    assert_eq!(d.unwrap(), Decimal { neg: true, mantissa: 25, scale: 1 });
    let v: Result<Vec<u32>, _> = FromStr::from_str("1,2,3");
    assert_eq!(v.unwrap(), vec![1, 2, 3]);
    let w: Result<Vec<String>, _> = FromStr::from_str("a b");
    assert_eq!(w.unwrap(), vec!["a", "b"]);
}

#[test]
fn mode_default_is_wrong() {
    assert_eq!(Mode::default(), Mode::Wrong);
}
